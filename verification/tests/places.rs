use kexsh::clock::{timestamp, LocalTime};
use kexsh::error::KexshError;
use kexsh::ipc;
use kexsh::server::pid;
use kexsh::text;

#[test]
fn socket_path_contains_uid() {
    let uid = nix::unistd::getuid();
    let path = ipc::socket_path();
    assert!(path.contains(&uid.to_string()));
    assert!(path.ends_with("kexsh.sock"));
}

#[test]
fn paths_of_a_user() {
    assert_eq!(ipc::socket_dir_for(1000), "/tmp/kexsh-1000");
    assert_eq!(ipc::socket_path_for(0), "/tmp/kexsh-0/kexsh.sock");
    assert_eq!(pid::pid_path_for(501), "/tmp/kexsh-501/kexsh.pid");
    let uid = nix::unistd::getuid().as_raw();
    assert_eq!(ipc::socket_dir(), ipc::socket_dir_for(uid));
    assert_eq!(pid::pid_path(), pid::pid_path_for(uid));
}

#[test]
fn pid_lifecycle() {
    assert_eq!(pid::read_pid(None).unwrap(), None);
    assert_eq!(pid::probe_target(&pid::read_pid(None)), None);

    let own = nix::unistd::Pid::this().as_raw() as u32;
    let written = pid::pid_text(own);
    assert_eq!(pid::read_pid(Some(&written)).unwrap(), Some(own));
    assert_eq!(pid::probe_target(&pid::read_pid(Some(&written))), Some(own as i32));
}

#[test]
fn pid_files() {
    assert_eq!(pid::pid_text(4294967295), "4294967295");
    assert_eq!(pid::read_pid(Some(" 123\n")).unwrap(), Some(123));
    assert_eq!(pid::read_pid(Some("\u{3000}+7\u{a0}")).unwrap(), Some(7));
    for bad in ["", "x", "-1", "4294967296", "1 2", "+"] {
        let complaint = bad.parse::<u32>().unwrap_err();
        assert_eq!(
            pid::read_pid(Some(bad)),
            Err(KexshError::Server(format!("invalid pid file: {complaint}")))
        );
        assert_eq!(pid::probe_target(&pid::read_pid(Some(bad))), None);
    }
    assert_eq!(pid::probe_target(&Ok(Some(4294967295))), Some(-1));
    assert_eq!(pid::probe_target(&Ok(Some(2147483648))), Some(i32::MIN));
}

#[test]
fn white_space_is_the_listed_characters() {
    for c in '\0'..=char::MAX {
        let listed = matches!(
            c,
            '\t'..='\r' | ' ' | '\u{85}' | '\u{a0}' | '\u{1680}' | '\u{2000}'..='\u{200a}'
                | '\u{2028}' | '\u{2029}' | '\u{202f}' | '\u{205f}' | '\u{3000}'
        );
        assert_eq!(c.is_whitespace(), listed);
        if listed {
            assert_eq!(pid::read_pid(Some(&format!("{c}7{c}{c}"))).unwrap(), Some(7));
        }
    }
}

fn moment(year: i32, month: i32, day: i32, hour: i32, minute: i32) -> LocalTime {
    LocalTime { year, month, day, hour, minute }
}

#[test]
fn timestamps() {
    assert_eq!(timestamp(moment(124, 2, 9, 17, 5)), "2024-03-09 17:05");
    assert_eq!(timestamp(moment(-1899, 11, 31, 0, 0)), "0001-12-31 00:00");
    for time in [moment(8101, 0, 1, 2, 3), moment(-1905, -2, -3, 100, 59)] {
        let expected = format!(
            "{:04}-{:02}-{:02} {:02}:{:02}",
            time.year + 1900,
            time.month + 1,
            time.day,
            time.hour,
            time.minute
        );
        assert_eq!(timestamp(time), expected);
    }
}

#[test]
fn earlier_times_are_written_as_earlier_texts() {
    let times = [
        moment(99, 11, 31, 23, 59),
        moment(100, 0, 1, 0, 0),
        moment(100, 0, 1, 0, 1),
        moment(100, 0, 1, 10, 0),
        moment(100, 0, 10, 9, 0),
        moment(100, 9, 1, 0, 0),
    ];
    for pair in times.windows(2) {
        assert!(text::comes_before(&timestamp(pair[0]), &timestamp(pair[1])));
        assert!(!text::comes_before(&timestamp(pair[1]), &timestamp(pair[0])));
    }
}

#[test]
fn texts_are_compared_by_their_bytes() {
    for (a, b) in [("", "a"), ("a", "b"), ("a", "aa"), ("z", "é"), ("é", "日")] {
        assert!(text::comes_before(a, b));
        assert!(!text::comes_before(b, a));
        assert!(!text::same_text(a, b));
        assert!(text::same_text(a, a));
    }
}

#[test]
fn numbers_as_text() {
    for n in [0u64, 9, 10, 255, 4096, u64::MAX] {
        let mut decimal = String::from("n=");
        text::push_decimal(&mut decimal, n);
        assert_eq!(decimal, format!("n={n}"));
        let mut hexadecimal = String::new();
        text::push_hexadecimal(&mut hexadecimal, n);
        assert_eq!(hexadecimal, format!("{n:x}"));
    }
}
