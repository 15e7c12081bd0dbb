//! A remote-execution system in the manner of Plan 9's `cpu`: the 9P2000.L
//! codec and server core, the rules of a passthrough file server, and the
//! decisions of the session manager, the launcher and the client.

use vstd::prelude::*;

pub mod client;
pub mod cmd;
pub mod error;
pub mod fcall;
pub mod launcher;
pub mod rpc;
pub mod serialize;
pub mod server;
pub mod srv;
pub mod text;
pub mod unpfs;
pub mod utils;
pub mod wire;

use crate::cmd::{FsTab, FsTabView};
use crate::text::{lemma_split_pieces, split, split_at, Separator};
use vstd::string::StringExecFns;

verus! {

/// The directory, below the temporary mount point, at which the client's
/// files appear.
pub const NINEP_MOUNT: &'static str = "mnt9p";

/// The directory, below the temporary mount point, at which the root of the
/// client appears.
pub const LOCAL_ROOT_MOUNT: &'static str = "local";

/// The bind mount that shows the client's `source` at `target`.
pub open spec fn namespace_entry(
    tmp_mnt: Seq<char>,
    target: Seq<char>,
    source: Seq<char>,
) -> FsTabView {
    FsTabView {
        spec: tmp_mnt + "/"@ + NINEP_MOUNT@ + source,
        file: target,
        vfstype: "none"@,
        mntops: "defaults,bind"@,
        freq: 0,
        passno: 0,
    }
}

/// Whether one of the mounts is at `target`.
pub open spec fn has_target(tabs: Seq<FsTabView>, target: Seq<char>) -> bool {
    exists|i: int| 0 <= i < tabs.len() && (#[trigger] tabs[i]).file == target
}

/// The mounts of `done` and then those that `parts` ask for. A part is
/// `target` or `target=source`; one with more than one `=`, or with a
/// target that has a mount already, asks for nothing.
pub open spec fn namespace_with(
    parts: Seq<Seq<char>>,
    tmp_mnt: Seq<char>,
    done: Seq<FsTabView>,
) -> Seq<FsTabView>
    decreases parts.len(),
{
    if parts.len() == 0 {
        done
    } else {
        let p = split(parts[0], Separator::Char('='));
        let target = p[0];
        let source = if p.len() > 1 {
            p[1]
        } else {
            target
        };
        let next = if p.len() > 2 || has_target(done, target) {
            done
        } else {
            done.push(namespace_entry(tmp_mnt, target, source))
        };
        namespace_with(parts.drop_first(), tmp_mnt, next)
    }
}

/// The mounts that a namespace asks for: those of its parts, which stand
/// with `:` between them. The empty namespace asks for none.
pub open spec fn namespace_of(namespace: Seq<char>, tmp_mnt: Seq<char>) -> Seq<FsTabView> {
    if namespace.len() == 0 {
        Seq::empty()
    } else {
        namespace_with(split(namespace, Separator::Char(':')), tmp_mnt, Seq::empty())
    }
}

/// No two of the mounts are at the same target.
pub open spec fn targets_differ(tabs: Seq<FsTabView>) -> bool {
    forall|i: int, j: int|
        0 <= i < j < tabs.len() ==> (#[trigger] tabs[i]).file != (#[trigger] tabs[j]).file
}

/// Mounts whose targets differ stay so when the mounts of more parts are
/// added.
pub proof fn lemma_namespace_with_targets_differ(
    parts: Seq<Seq<char>>,
    tmp_mnt: Seq<char>,
    done: Seq<FsTabView>,
)
    requires
        targets_differ(done),
    ensures
        targets_differ(namespace_with(parts, tmp_mnt, done)),
    decreases parts.len(),
{
    if parts.len() > 0 {
        let p = split(parts[0], Separator::Char('='));
        let target = p[0];
        let source = if p.len() > 1 {
            p[1]
        } else {
            target
        };
        if p.len() > 2 || has_target(done, target) {
            lemma_namespace_with_targets_differ(parts.drop_first(), tmp_mnt, done);
        } else {
            let next = done.push(namespace_entry(tmp_mnt, target, source));
            assert forall|i: int, j: int| 0 <= i < j < next.len() implies (#[trigger] next[i]).file
                != (#[trigger] next[j]).file by {
                if j == done.len() {
                    assert(done[i].file != target);
                }
            }
            lemma_namespace_with_targets_differ(parts.drop_first(), tmp_mnt, next);
        }
    }
}

/// A namespace asks for at most one mount at each target.
pub proof fn lemma_namespace_targets_differ(namespace: Seq<char>, tmp_mnt: Seq<char>)
    ensures
        targets_differ(namespace_of(namespace, tmp_mnt)),
{
    if namespace.len() > 0 {
        lemma_namespace_with_targets_differ(
            split(namespace, Separator::Char(':')),
            tmp_mnt,
            Seq::empty(),
        );
    }
}

/// Whether one of the mounts is at `target`.
fn mounts_at(tabs: &Vec<FsTab>, target: &String) -> (found: bool)
    ensures
        found == has_target(tabs.deep_view(), target@),
{
    let mut i: usize = 0;
    while i < tabs.len()
        invariant
            i <= tabs.len(),
            forall|k: int| 0 <= k < i ==> (#[trigger] tabs.deep_view()[k]).file != target@,
        decreases tabs.len() - i,
    {
        if tabs[i].file == *target {
            assert(tabs.deep_view()[i as int].file == target@);
            return true;
        }
        i = i + 1;
    }
    false
}

/// Reads the mounts that a namespace asks for.
pub fn parse_namespace(namespace: &str, tmp_mnt: &str) -> (result: Vec<FsTab>)
    ensures
        result.deep_view() == namespace_of(namespace@, tmp_mnt@),
{
    let mut result: Vec<FsTab> = Vec::new();
    assert(result.deep_view() =~= Seq::<FsTabView>::empty());
    if namespace.is_empty() {
        return result;
    }
    let parts = split_at(namespace, Separator::Char(':'));
    let ghost all = parts.deep_view();
    let mut i: usize = 0;
    assert(all.skip(0) =~= all);
    while i < parts.len()
        invariant
            i <= parts.len(),
            all == parts.deep_view(),
            namespace_with(all, tmp_mnt@, Seq::empty()) == namespace_with(
                all.skip(i as int),
                tmp_mnt@,
                result.deep_view(),
            ),
        decreases parts.len() - i,
    {
        let p = split_at(parts[i].as_str(), Separator::Char('='));
        proof {
            lemma_split_pieces(parts[i as int]@, Separator::Char('='));
            assert(all.skip(i as int)[0] == parts[i as int]@);
            assert(all.skip(i as int).drop_first() =~= all.skip(i + 1));
        }
        if p.len() <= 2 && !mounts_at(&result, &p[0]) {
            let target = p[0].clone();
            let source = if p.len() > 1 {
                p[1].as_str()
            } else {
                p[0].as_str()
            };
            let mut spec = tmp_mnt.to_owned();
            spec.append("/");
            spec.append(NINEP_MOUNT);
            spec.append(source);
            let tab = FsTab {
                spec,
                file: target,
                vfstype: "none".to_owned(),
                mntops: "defaults,bind".to_owned(),
                freq: 0,
                passno: 0,
            };
            let ghost before = result.deep_view();
            let ghost added = tab@;
            result.push(tab);
            assert(result.deep_view() =~= before.push(added));
        }
        i = i + 1;
    }
    result
}

} // verus!
