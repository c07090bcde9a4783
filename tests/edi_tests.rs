use alm::edi::{Chd, Ed, Edi, Evd, Fd, Match, Pid};

fn kind_name(e: Edi) -> String {
    e.kind(Match {
        pid: |p: Pid| format!("pid {}", p.raw()),
        fd: |f: Fd| format!("fd {}", f.raw()),
        chd: |c: Chd| format!("chd {}", c.raw()),
        evd: |v: Evd| format!("evd {}", v.raw()),
    })
}

#[test]
fn edi_round_trip_file() {
    let e = Edi::from(Fd::new(0x41));
    assert_eq!(e.describe(), "effect file@65");
    let p: Option<Pid> = e.into();
    assert_eq!(p, None);
    let f: Option<Fd> = e.into();
    assert_eq!(f, Some(Fd::new(0x41)));
}

#[test]
fn edi_round_trip_every_kind() {
    let top = (1u64 << 62) - 1;
    for v in [0u64, 1, 7, 0x1234_5678, top] {
        let p: Option<Pid> = Edi::from(Pid::new(v)).into();
        assert_eq!(p, Some(Pid::new(v)));
        let f: Option<Fd> = Edi::from(Fd::new(v)).into();
        assert_eq!(f, Some(Fd::new(v)));
        let c: Option<Chd> = Edi::from(Chd::new(v)).into();
        assert_eq!(c, Some(Chd::new(v)));
        let x: Option<Evd> = Edi::from(Evd::new(v)).into();
        assert_eq!(x, Some(Evd::new(v)));
        let wrong: Option<Chd> = Edi::from(Evd::new(v)).into();
        assert_eq!(wrong, None);
    }
}

#[test]
fn edi_tokens_of_different_kinds_differ() {
    assert_ne!(Edi::from(Pid::new(3)), Edi::from(Fd::new(3)));
    assert_ne!(Edi::from(Chd::new(3)), Edi::from(Evd::new(3)));
    assert_eq!(Edi::from(Chd::new(3)), Edi::from(Chd::new(3)));
}

#[test]
fn edi_kind_calls_the_matching_handler() {
    assert_eq!(kind_name(Edi::from(Pid::new(4))), "pid 4");
    assert_eq!(kind_name(Edi::from(Fd::new(5))), "fd 5");
    assert_eq!(kind_name(Edi::from(Chd::new(6))), "chd 6");
    assert_eq!(kind_name(Edi::from(Evd::new((1u64 << 62) - 1))), format!("evd {}", (1u64 << 62) - 1));
}

#[test]
fn edi_describe_each_kind() {
    assert_eq!(Edi::from(Pid::new(0)).describe(), "effect pid@0");
    assert_eq!(Edi::from(Chd::new(120)).describe(), "effect channel@120");
    assert_eq!(Edi::from(Evd::new(9)).describe(), "effect event@9");
    assert_eq!(Pid::new(1234567890).describe(), "pid@1234567890");
    assert_eq!(Fd::new(10).describe(), "file@10");
}

#[test]
fn permission_delegation() {
    let mut ed = Ed::new("device");
    assert!(ed.access(Pid::new(7)).is_none());
    assert!(ed.allow(Pid::kernel(), Pid::new(7)));
    assert_eq!(ed.access(Pid::new(7)), Some(&"device"));
    assert!(ed.access(Pid::new(8)).is_none());
    assert!(ed.allow(Pid::new(7), Pid::new(8)));
    assert_eq!(ed.access(Pid::new(8)), Some(&"device"));
}

#[test]
fn refused_grant_changes_nothing() {
    let mut ed = Ed::new(1u8);
    assert!(!ed.allow(Pid::new(3), Pid::new(4)));
    assert!(!ed.is_allowed(Pid::new(4)));
    assert!(!ed.is_allowed(Pid::new(3)));
}

#[test]
fn kernel_always_permitted() {
    let ed = Ed::new(5u32);
    assert_eq!(ed.access(Pid::kernel()), Some(&5u32));
    let ed2 = Ed::from_perms(6u32, vec![Pid::new(2)]);
    assert!(ed2.is_allowed(Pid::kernel()));
    assert!(ed2.is_allowed(Pid::new(2)));
    assert!(!ed2.is_allowed(Pid::new(3)));
}

#[test]
fn standard_identifiers() {
    assert_eq!(Pid::kernel(), Pid::new(Pid::KERNEL_ID));
    assert_eq!(Fd::new(Fd::STDIN_ID).raw(), 0);
    assert_eq!(Fd::new(Fd::STDOUT_ID).raw(), 1);
    assert_eq!(Fd::new(Fd::STDERR_ID).raw(), 2);
}
