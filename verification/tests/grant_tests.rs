use mxc_service::ace::{AccessMode, AceCall, AceChange, AceStage};
use mxc_service::engine::SessionKind;
use mxc_service::service_sid::{own_sid, ServiceSid};
use mxc_service::{grant, wfp_grant};

#[test]
fn grant_service_sid_layout_is_plausible() {
    for sid in [ServiceSid::derive("mxc-service"), own_sid()] {
        let b = sid.bytes();
        assert_eq!(b.len(), 8 + 24);
        assert_eq!(b[0], 1);
        assert_eq!(b[1], 6);
        assert_eq!(&b[2..8], &[0, 0, 0, 0, 0, 5]);
        let base = u32::from_le_bytes([b[8], b[9], b[10], b[11]]);
        assert_eq!(base, 80);
    }
}

#[test]
fn grant_service_sid_is_case_insensitive() {
    let a = ServiceSid::derive("mxc-service");
    let b = ServiceSid::derive("MXC-Service");
    let c = ServiceSid::derive("MXC-SERVICE");
    assert_eq!(a.bytes(), b.bytes());
    assert_eq!(a.bytes(), c.bytes());
}

fn sub_authorities(b: &[u8]) -> Vec<u32> {
    b[8..].chunks(4).map(|c| u32::from_le_bytes([c[0], c[1], c[2], c[3]])).collect()
}

#[test]
fn service_sid_is_the_one_windows_derives() {
    let sid = ServiceSid::derive("TrustedInstaller");
    assert_eq!(
        sub_authorities(sid.bytes()),
        vec![80, 956008885, 3418522649, 1831038044, 1853292631, 2271478464]
    );
}

#[test]
fn own_sid_is_that_of_the_service() {
    assert_eq!(own_sid().bytes(), ServiceSid::derive("mxc-service").bytes());
    assert_eq!(own_sid().bytes(), ServiceSid::derive_upper("MXC-SERVICE").bytes());
    assert_eq!(
        own_sid().bytes(),
        ServiceSid::try_derive("mxc-service").unwrap().bytes()
    );
    assert_eq!(
        sub_authorities(own_sid().bytes()),
        vec![80, 3615203857, 855620860, 3941954982, 1296241162, 2510438110]
    );
}

#[test]
fn names_outside_ascii_are_put_in_upper_case() {
    assert_eq!(
        ServiceSid::derive("größe").bytes(),
        ServiceSid::derive_upper("GRÖSSE").bytes()
    );
}

#[test]
fn grant_entry_is_inherited() {
    let e = grant::entry(AccessMode::Grant);
    assert_eq!(e.permissions, 0x1_00e3);
    assert_eq!(e.inheritance, 3);
    assert_eq!(e.mode, AccessMode::Grant);
    assert_eq!(e.trustee, own_sid().bytes());
    let e = grant::entry(AccessMode::Revoke);
    assert_eq!(e.permissions, 0x1_00e3);
    assert_eq!(e.inheritance, 0);
}

#[test]
fn least_entry_is_not_inherited() {
    for mode in [AccessMode::Grant, AccessMode::Revoke] {
        let e = wfp_grant::entry(mode);
        assert_eq!((e.permissions, e.inheritance, e.mode), (65, 0, mode));
        assert_eq!(e.trustee, own_sid().bytes());
    }
}

fn run(mut c: AceChange, answers: &[u32]) -> AceChange {
    for a in answers {
        c.answered(*a);
    }
    c
}

#[test]
fn four_calls_make_a_change() {
    let mut c = grant::install_grant();
    assert_eq!(c.entry.mode, AccessMode::Grant);
    assert_eq!(c.session_kind(), Some(SessionKind::Persistent));
    assert_eq!(run(wfp_grant::install_grant(), &[0]).session_kind(), None);
    let mut seen = Vec::new();
    while let AceStage::Call(call) = c.stage {
        assert!(grant::outcome(&c).is_none());
        seen.push(call);
        c.answered(0);
    }
    assert_eq!(c.stage, AceStage::Close);
    assert!(grant::outcome(&c).is_none());
    c.answered(50);
    assert_eq!(
        seen,
        vec![
            AceCall::EngineOpen,
            AceCall::GetSecurityInfo,
            AceCall::SetEntriesInAcl,
            AceCall::SetSecurityInfo
        ]
    );
    assert_eq!(grant::outcome(&c), Some(Ok(())));
    assert!(wfp_grant::outcome(&c).unwrap().is_ok());
    assert_eq!(grant::uninstall_warning(&c), None);
}

#[test]
fn a_change_carries_its_entry() {
    let trustee = own_sid();
    for (c, permissions, mode, inheritance) in [
        (grant::install_grant(), 0x1_00e3, AccessMode::Grant, 3),
        (grant::uninstall_grant(), 0x1_00e3, AccessMode::Revoke, 0),
        (wfp_grant::install_grant(), 65, AccessMode::Grant, 0),
        (wfp_grant::uninstall_grant(), 65, AccessMode::Revoke, 0),
    ] {
        assert_eq!(c.stage, AceStage::Call(AceCall::EngineOpen));
        let e = run(c, &[0, 0]).entry;
        assert_eq!((e.permissions, e.mode, e.inheritance), (permissions, mode, inheritance));
        assert_eq!(e.trustee, trustee.bytes());
    }
}

#[test]
fn first_failure_ends_a_change() {
    let texts = [
        "FwpmEngineOpen0 failed: Win32 0x00000032",
        "FwpmEngineGetSecurityInfo0 failed: Win32 0x00000032",
        "SetEntriesInAclW failed: Win32 50",
        "FwpmEngineSetSecurityInfo0 failed: Win32 0x00000032",
    ];
    for (k, want) in texts.iter().enumerate() {
        let mut answers = vec![0u32; 5];
        answers[k] = 50;
        let c = run(grant::install_grant(), &answers);
        assert_eq!(grant::outcome(&c).unwrap().unwrap_err(), *want);
    }
    assert_eq!(grant::INSTALL_CONTEXT, "install grant");
}

#[test]
fn opened_engine_is_closed_once() {
    for failing in 0..5 {
        let mut c = grant::install_grant();
        let (mut opened, mut closed) = (0, 0);
        let mut k = 0;
        while grant::outcome(&c).is_none() {
            let rc = if k == failing { 5 } else { 0 };
            match c.stage {
                AceStage::Call(AceCall::EngineOpen) if rc == 0 => opened += 1,
                AceStage::Close | AceStage::CloseFailed(_, _) => closed += 1,
                _ => {}
            }
            c.answered(rc);
            k += 1;
        }
        assert_eq!((opened, closed), if failing == 0 { (0, 0) } else { (1, 1) });
    }
}

#[test]
fn failed_revocation_only_warns() {
    let c = run(grant::uninstall_grant(), &[0, 0]);
    assert_eq!(grant::uninstall_outcome(&c), None);
    let c = run(grant::uninstall_grant(), &[5]);
    assert_eq!(grant::uninstall_outcome(&c), Some(Ok(())));
    assert_eq!(c.entry.mode, AccessMode::Revoke);
    assert_eq!(
        grant::uninstall_warning(&c).unwrap(),
        "[grant] uninstall grant warning: FwpmEngineOpen0 failed: Win32 0x00000005"
    );
    let c = run(wfp_grant::uninstall_grant(), &[0, 0, 0, 5, 0]);
    assert!(wfp_grant::uninstall_outcome(&c).unwrap().is_ok());
    let done = run(wfp_grant::uninstall_grant(), &[0; 5]);
    assert!(wfp_grant::uninstall_outcome(&done).unwrap().is_ok());
    assert_eq!(
        wfp_grant::uninstall_warning(&c).unwrap(),
        "[mxc_wfp::grant] uninstall warning: WfpFailure { api: \"FwpmEngineSetSecurityInfo0\", hresult: 5, message: \"Win32 error 5 (0x00000005)\" }"
    );
    let c = run(wfp_grant::install_grant(), &[0, 7, 0]);
    assert_eq!(
        wfp_grant::outcome(&c).unwrap().unwrap_err().message(),
        "WFP operation failed: FwpmEngineGetSecurityInfo0 -> 0x00000007 (Win32 error 7 (0x00000007))"
    );
}
