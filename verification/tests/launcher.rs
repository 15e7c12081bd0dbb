use p9cpu::cmd::{Command, FsTab};
use p9cpu::launcher::{
    command_frame, command_len, exec_args, expect_eof, failure, first, get_ptr, launch_args,
    mount_call,
    parse_fstab_opt, steps, Error, MountCall, Step, LAUNCH_FLAG, MS_BIND, MS_PRIVATE, MS_REC,
    ROOT_MOUNT_FLAGS,
};
use p9cpu::parse_namespace;

#[test]
fn mount_flag_numbers() {
    assert_eq!(MS_BIND, 4096);
    assert_eq!(MS_REC, 16384);
    assert_eq!(MS_PRIVATE, 1 << 18);
    assert_eq!(ROOT_MOUNT_FLAGS, MS_REC | MS_PRIVATE);
    assert_eq!(LAUNCH_FLAG, "--launch");
}

#[test]
fn mount_options() {
    assert_eq!(parse_fstab_opt("defaults,bind"), (MS_BIND, "".to_owned()));
    assert_eq!(parse_fstab_opt("defaults"), (0, "".to_owned()));
    assert_eq!(parse_fstab_opt("bind"), (MS_BIND, "".to_owned()));
    assert_eq!(parse_fstab_opt("ro,bind,noexec"), (MS_BIND, "ro,noexec".to_owned()));
    assert_eq!(parse_fstab_opt("trans=tcp,port=564"), (0, "trans=tcp,port=564".to_owned()));
    assert_eq!(parse_fstab_opt("bind,bind"), (MS_BIND, "".to_owned()));
    assert_eq!(parse_fstab_opt(""), (0, "".to_owned()));
    assert_eq!(parse_fstab_opt("a,,b"), (0, "a,,b".to_owned()));
    assert_eq!(parse_fstab_opt("binder,Defaults"), (0, "binder,Defaults".to_owned()));
}

#[test]
fn empty_text_is_no_pointer() {
    assert_eq!(get_ptr(""), None);
    assert_eq!(get_ptr("none"), Some("none"));
}

#[test]
fn mount_of_a_namespace_entry() {
    let tab = parse_namespace("/etc", "/tmp").remove(0);
    assert_eq!(
        mount_call(&tab),
        MountCall {
            source: Some("/tmp/mnt9p/etc".to_owned()),
            target: "/etc".to_owned(),
            fstype: Some("none".to_owned()),
            flags: MS_BIND,
            data: None,
        }
    );
}

#[test]
fn mount_with_empty_fields() {
    let tab = FsTab {
        spec: "".to_owned(),
        file: "/proc".to_owned(),
        vfstype: "".to_owned(),
        mntops: "nosuid,defaults".to_owned(),
        freq: 0,
        passno: 0,
    };
    assert_eq!(
        mount_call(&tab),
        MountCall {
            source: None,
            target: "/proc".to_owned(),
            fstype: None,
            flags: 0,
            data: Some("nosuid".to_owned()),
        }
    );
}

#[test]
fn command_travels_behind_its_length() {
    assert_eq!(command_frame(vec![]), vec![0, 0, 0, 0, 0, 0, 0, 0]);
    assert_eq!(command_frame(vec![7, 8, 9]), vec![3, 0, 0, 0, 0, 0, 0, 0, 7, 8, 9]);
    let frame = command_frame(vec![1; 300]);
    assert_eq!(frame[..8], [44, 1, 0, 0, 0, 0, 0, 0]);
    assert_eq!(command_len(&frame[..8].to_vec()), Some(300));
    assert_eq!(command_len(&vec![1, 2, 3, 4, 5, 6, 7, 8]), Some(0x0807_0605_0403_0201));
    assert_eq!(command_len(&vec![1, 2, 3]), None);
    assert_eq!(command_len(&vec![0; 9]), None);
}

#[test]
fn daemon_must_be_done_talking() {
    assert_eq!(expect_eof(Some(0)), Ok(()));
    assert_eq!(expect_eof(Some(1)), Err(Error::UnexpectedBytes));
    assert_eq!(expect_eof(None), Err(Error::UnexpectedBytes));
}

fn command(tty: bool) -> p9cpu::cmd::Cmd {
    let mut c = Command::new("/bin/cat".to_owned());
    c.args(vec!["/etc/hostname".to_owned()])
        .envs(vec![(b"A".to_vec(), b"1".to_vec()), (b"B".to_vec(), b"2".to_vec())])
        .fstab(parse_namespace("/etc:/usr=/opt", "/tmp"))
        .tty(tty);
    c.into_cmd()
}

#[test]
fn arguments_begin_with_the_program() {
    assert_eq!(
        exec_args(&command(false)),
        Ok(vec!["/bin/cat".to_owned(), "/etc/hostname".to_owned()])
    );
    let mut c = Command::new("a\0b".to_owned());
    c.args(vec!["x".to_owned()]);
    assert_eq!(exec_args(&c.into_cmd()), Err(Error::ConvertCString));
    let mut c = Command::new("a".to_owned());
    c.args(vec!["x".to_owned(), "y\0".to_owned()]);
    assert_eq!(exec_args(&c.into_cmd()), Err(Error::ConvertCString));
}

#[test]
fn steps_in_order() {
    assert_eq!(
        first(),
        vec![Step::Unshare, Step::Connect, Step::ReadCommand, Step::DecodeCommand]
    );
    assert_eq!(
        steps(&command(false)),
        vec![
            Step::MountRoot,
            Step::Mount(0),
            Step::Mount(1),
            Step::ExpectEof,
            Step::Shutdown,
            Step::SetEnv(0),
            Step::SetEnv(1),
            Step::PrepareArgs,
            Step::SetGid,
            Step::SetUid,
            Step::Exec,
        ]
    );
    assert_eq!(
        steps(&command(true)),
        vec![
            Step::MountRoot,
            Step::Mount(0),
            Step::Mount(1),
            Step::ExpectEof,
            Step::Shutdown,
            Step::SetEnv(0),
            Step::SetEnv(1),
            Step::PrepareArgs,
            Step::SetSid,
            Step::SetControllingTerminal,
            Step::SetGid,
            Step::SetUid,
            Step::Exec,
        ]
    );
    assert_eq!(
        steps(&Command::new("p".to_owned()).into_cmd()),
        vec![
            Step::MountRoot,
            Step::ExpectEof,
            Step::Shutdown,
            Step::PrepareArgs,
            Step::SetGid,
            Step::SetUid,
            Step::Exec
        ]
    );
}

#[test]
fn failed_mounts_are_passed_over() {
    assert_eq!(failure(Step::Mount(3)), None);
    assert_eq!(failure(Step::SetEnv(0)), None);
    let stops = [
        (Step::Unshare, Error::Unshare),
        (Step::Connect, Error::ConnectToPort),
        (Step::ReadCommand, Error::ReadUds),
        (Step::DecodeCommand, Error::ProtoDecode),
        (Step::MountRoot, Error::MountRoot),
        (Step::ExpectEof, Error::UnexpectedBytes),
        (Step::Shutdown, Error::ShutdownSocket),
        (Step::PrepareArgs, Error::ConvertCString),
        (Step::SetSid, Error::SetSid),
        (Step::SetControllingTerminal, Error::SetControllingTerminal),
        (Step::SetGid, Error::SetGid),
        (Step::SetUid, Error::SetUid),
        (Step::Exec, Error::Exec),
    ];
    for (step, error) in stops {
        assert_eq!(failure(step), Some(error));
    }
}

#[test]
fn launcher_is_started_with_its_port() {
    assert_eq!(launch_args(17010), vec!["--launch".to_owned(), "17010".to_owned()]);
    assert_eq!(launch_args(0), vec!["--launch".to_owned(), "0".to_owned()]);
    assert_eq!(launch_args(65535), vec!["--launch".to_owned(), "65535".to_owned()]);
}
