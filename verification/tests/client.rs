use p9cpu::client::{
    build_command, chunk, exit_code, wait_inner, wants_stderr, BuildError, ClientError,
    P9cpuClient, Request, SessionInfo, STDIN_BUF_SIZE,
};
use p9cpu::cmd::{Cmd, EnvVar, FsTab, FsTabError};

#[test]
fn one_command_at_a_time() {
    let mut c = P9cpuClient::new();
    assert_eq!(c.check_start(), Ok(()));
    assert_eq!(c.wait(), Err(ClientError::NotStarted));
    assert_eq!(c.start(5, true), Ok(()));
    assert_eq!(c.check_start(), Err(ClientError::AlreadyStarted));
    assert_eq!(c.start(6, false), Err(ClientError::AlreadyStarted));
    assert_eq!(c.wait(), Ok(SessionInfo { sid: 5, tty: true }));
    assert_eq!(c.wait(), Err(ClientError::NotStarted));
    assert_eq!(c.start(6, false), Ok(()));
}

#[test]
fn exit_code_is_handed_on() {
    assert_eq!(wait_inner(0), Ok(()));
    assert_eq!(wait_inner(3), Err(ClientError::NonZeroExitCode(3)));
    assert_eq!(wait_inner(-1), Err(ClientError::NonZeroExitCode(-1)));
    assert_eq!(exit_code(wait_inner(0)), 0);
    assert_eq!(exit_code(wait_inner(3)), 3);
    assert_eq!(exit_code(wait_inner(255)), 255);
    assert_eq!(exit_code(Err(ClientError::NotStarted)), 1);
    assert_eq!(exit_code(Err(ClientError::IoErr)), 1);
    assert_eq!(exit_code(Err(ClientError::Inner)), 1);
}

#[test]
fn terminal_has_no_stderr() {
    assert!(wants_stderr(false));
    assert!(!wants_stderr(true));
}

#[test]
fn input_travels_in_pieces() {
    assert_eq!(STDIN_BUF_SIZE, 128);
    assert_eq!(chunk(vec![0; 128], 0), None);
    assert_eq!(chunk(vec![1, 2, 3, 0, 0], 3), Some(vec![1, 2, 3]));
    assert_eq!(chunk(vec![1, 2], 2), Some(vec![1, 2]));
    assert_eq!(chunk(vec![1, 2], 5), Some(vec![1, 2]));
}

fn request() -> Request {
    Request {
        program: "/bin/cat".to_owned(),
        args: vec!["/etc/hostname".to_owned()],
        envs: vec![(b"PATH".to_vec(), b"/bin".to_vec())],
        namespace: "/etc=/etc".to_owned(),
        fs_tab: None,
        tmp_mnt: "/tmp".to_owned(),
        tty: false,
        uid: 1000,
        gid: 100,
    }
}

fn bind(spec: &str, file: &str) -> FsTab {
    FsTab {
        spec: spec.to_owned(),
        file: file.to_owned(),
        vfstype: "none".to_owned(),
        mntops: "defaults,bind".to_owned(),
        freq: 0,
        passno: 0,
    }
}

#[test]
fn command_for_cat_of_hostname() {
    let cmd = build_command(request()).unwrap().into_cmd();
    assert_eq!(
        cmd,
        Cmd {
            program: "/bin/cat".to_owned(),
            args: vec!["/etc/hostname".to_owned()],
            envs: vec![EnvVar { key: b"PATH".to_vec(), val: b"/bin".to_vec() }],
            fstab: vec![bind("/tmp/mnt9p/etc", "/etc")],
            tty: false,
            ninep: true,
            tmp_mnt: "/tmp".to_owned(),
            uid: 1000,
            gid: 100,
        }
    );
}

#[test]
fn command_without_namespace_needs_no_9p() {
    let mut req = request();
    req.namespace = "".to_owned();
    req.tty = true;
    req.fs_tab = Some(vec![
        "# a comment".to_owned(),
        "proc /proc proc defaults 0 0".to_owned(),
    ]);
    let cmd = build_command(req).unwrap().into_cmd();
    assert!(!cmd.ninep);
    assert!(cmd.tty);
    assert_eq!(
        cmd.fstab,
        vec![FsTab {
            spec: "proc".to_owned(),
            file: "/proc".to_owned(),
            vfstype: "proc".to_owned(),
            mntops: "defaults".to_owned(),
            freq: 0,
            passno: 0,
        }]
    );
}

#[test]
fn namespace_mounts_come_first() {
    let mut req = request();
    req.namespace = "/a:/b=/c".to_owned();
    req.fs_tab = Some(vec!["tmpfs /run tmpfs size=1m 1 2".to_owned()]);
    let cmd = build_command(req).unwrap().into_cmd();
    assert!(cmd.ninep);
    assert_eq!(cmd.fstab.len(), 3);
    assert_eq!(cmd.fstab[0], bind("/tmp/mnt9p/a", "/a"));
    assert_eq!(cmd.fstab[1], bind("/tmp/mnt9p/c", "/b"));
    assert_eq!(cmd.fstab[2].file, "/run");
    assert_eq!((cmd.fstab[2].freq, cmd.fstab[2].passno), (1, 2));
}

#[test]
fn command_cannot_be_built() {
    let mut req = request();
    req.tmp_mnt = "".to_owned();
    assert_eq!(build_command(req).err(), Some(BuildError::EmptyTmpMnt));

    let mut req = request();
    req.fs_tab = Some(vec!["proc /proc proc defaults 0".to_owned()]);
    assert_eq!(build_command(req).err(), Some(BuildError::FsTab(FsTabError::NotSixFields)));

    let mut req = request();
    req.fs_tab = Some(vec!["".to_owned()]);
    assert_eq!(build_command(req).err(), Some(BuildError::FsTab(FsTabError::NotSixFields)));

    let mut req = request();
    req.fs_tab = Some(vec!["proc /proc proc defaults x 0".to_owned()]);
    assert_eq!(
        build_command(req).err(),
        Some(BuildError::FsTab(FsTabError::InvalidNumber("freq")))
    );
}
