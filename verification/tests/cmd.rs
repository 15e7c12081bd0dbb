use p9cpu::cmd::{is_comment, parse_fstab, Cmd, Command, EnvVar, FsTab, FsTabError, FREQ, PASSNO};

fn tab(spec: &str, file: &str, vfstype: &str, mntops: &str, freq: u32, passno: u32) -> FsTab {
    FsTab {
        spec: spec.to_owned(),
        file: file.to_owned(),
        vfstype: vfstype.to_owned(),
        mntops: mntops.to_owned(),
        freq,
        passno,
    }
}

#[test]
fn fstab_line_has_six_fields() {
    assert_eq!(
        FsTab::try_from("/dev/sda1 / ext4 rw,noatime 0 1"),
        Ok(tab("/dev/sda1", "/", "ext4", "rw,noatime", 0, 1))
    );
    assert_eq!(
        FsTab::try_from("  proc\t/proc   proc\tdefaults\t+3  4294967295 \n"),
        Ok(tab("proc", "/proc", "proc", "defaults", 3, 4294967295))
    );
}

#[test]
fn fstab_line_with_other_than_six_fields() {
    for line in ["", "   ", "a", "a b c d", "a b c d 0", "a b c d 0 0 extra"] {
        assert_eq!(FsTab::try_from(line), Err(FsTabError::NotSixFields));
    }
}

#[test]
fn fstab_line_with_bad_numbers() {
    assert_eq!(FREQ, "freq");
    assert_eq!(PASSNO, "passno");
    assert_eq!(FsTab::try_from("a b c d x 0"), Err(FsTabError::InvalidNumber("freq")));
    assert_eq!(FsTab::try_from("a b c d -1 0"), Err(FsTabError::InvalidNumber("freq")));
    assert_eq!(FsTab::try_from("a b c d 0 1.5"), Err(FsTabError::InvalidNumber("passno")));
    assert_eq!(
        FsTab::try_from("a b c d 0 4294967296"),
        Err(FsTabError::InvalidNumber("passno"))
    );
    // The first fault from the left is the one reported.
    assert_eq!(FsTab::try_from("a b c d x"), Err(FsTabError::InvalidNumber("freq")));
    assert_eq!(FsTab::try_from("a b c d x y z"), Err(FsTabError::InvalidNumber("freq")));
    assert_eq!(FsTab::try_from("a b c d 0 y z"), Err(FsTabError::InvalidNumber("passno")));
}

#[test]
fn comments_are_passed_over() {
    assert!(is_comment("# comment"));
    assert!(is_comment("#"));
    assert!(!is_comment(" # not at the start"));
    assert!(!is_comment(""));
    let lines: Vec<String> = ["# first", "a b c d 1 2", "#e f g h 3 4", "i j k l 5 6"]
        .iter()
        .map(|s| s.to_string())
        .collect();
    assert_eq!(
        parse_fstab(&lines),
        Ok(vec![tab("a", "b", "c", "d", 1, 2), tab("i", "j", "k", "l", 5, 6)])
    );
    assert_eq!(parse_fstab(&vec![]), Ok(vec![]));
}

#[test]
fn first_bad_line_fails_the_file() {
    let lines: Vec<String> =
        ["a b c d 1 2", "a b c d x 2", "too short"].iter().map(|s| s.to_string()).collect();
    assert_eq!(parse_fstab(&lines), Err(FsTabError::InvalidNumber("freq")));
    let lines: Vec<String> = ["a b c d 1 2", ""].iter().map(|s| s.to_string()).collect();
    assert_eq!(parse_fstab(&lines), Err(FsTabError::NotSixFields));
}

#[test]
fn new_command_is_bare() {
    assert_eq!(
        Command::new("/bin/true".to_owned()).into_cmd(),
        Cmd {
            program: "/bin/true".to_owned(),
            args: vec![],
            envs: vec![],
            fstab: vec![],
            tty: false,
            ninep: false,
            tmp_mnt: "".to_owned(),
            uid: 0,
            gid: 0,
        }
    );
}

#[test]
fn command_is_built_up() {
    let mut c = Command::new("/bin/ls".to_owned());
    c.args(vec!["-l".to_owned()])
        .args(vec!["/".to_owned(), "/tmp".to_owned()])
        .envs(vec![(b"A".to_vec(), b"1".to_vec())])
        .envs(vec![(b"B".to_vec(), vec![0xff])])
        .fstab(vec![tab("a", "b", "c", "d", 0, 0)])
        .fstab(vec![tab("e", "f", "g", "h", 1, 1)])
        .ninep(true)
        .tty(true)
        .tmp_mnt("/mnt".to_owned())
        .ugid(5, 6);
    assert_eq!(
        c.into_cmd(),
        Cmd {
            program: "/bin/ls".to_owned(),
            args: vec!["-l".to_owned(), "/".to_owned(), "/tmp".to_owned()],
            envs: vec![
                EnvVar { key: b"A".to_vec(), val: b"1".to_vec() },
                EnvVar { key: b"B".to_vec(), val: vec![0xff] }
            ],
            fstab: vec![tab("a", "b", "c", "d", 0, 0), tab("e", "f", "g", "h", 1, 1)],
            ninep: true,
            tty: true,
            tmp_mnt: "/mnt".to_owned(),
            uid: 5,
            gid: 6,
        }
    );
}

#[test]
fn later_settings_win() {
    let mut c = Command::new("p".to_owned());
    c.tty(true).tty(false).ninep(true).ugid(1, 2).ugid(3, 4).tmp_mnt("a".to_owned());
    c.tmp_mnt("b".to_owned());
    let cmd = c.into_cmd();
    assert!(!cmd.tty);
    assert!(cmd.ninep);
    assert_eq!((cmd.uid, cmd.gid), (3, 4));
    assert_eq!(cmd.tmp_mnt, "b");
}
