//! Which programs may make privileged calls: in a release build those that are
//! signed, with a chain that ends in a root of Microsoft.

use crate::log::{note, note_views, Note, NoteView};
use crate::text::{decimal, hex_fixed, push_decimal, push_hex_fixed, push_quoted, quoted};
use vstd::prelude::*;

verus! {

/// What is known of the signature of a program.
#[derive(Debug, Clone)]
pub enum AuthzVerdict {
    /// Signed, with a chain that ends in a root of Microsoft.
    Trusted,
    /// Signed, with a chain that ends elsewhere.
    NotMicrosoftSigned,
    /// Not signed, or the signature is not valid; with the status.
    NotSigned(u32),
    /// It could not be determined, for this reason.
    Indeterminate(String),
}

/// A verdict with its text as a sequence of characters.
pub enum VerdictView {
    Trusted,
    NotMicrosoftSigned,
    NotSigned(u32),
    Indeterminate(Seq<char>),
}

impl View for AuthzVerdict {
    type V = VerdictView;

    open spec fn view(&self) -> VerdictView {
        match *self {
            AuthzVerdict::Trusted => VerdictView::Trusted,
            AuthzVerdict::NotMicrosoftSigned => VerdictView::NotMicrosoftSigned,
            AuthzVerdict::NotSigned(s) => VerdictView::NotSigned(s),
            AuthzVerdict::Indeterminate(r) => VerdictView::Indeterminate(r@),
        }
    }
}

/// How a verdict is written in a note.
pub open spec fn verdict_debug(v: VerdictView) -> Seq<char> {
    match v {
        VerdictView::Trusted => "Trusted"@,
        VerdictView::NotMicrosoftSigned => "NotMicrosoftSigned"@,
        VerdictView::NotSigned(s) => "NotSigned("@ + decimal(s as nat) + ")"@,
        VerdictView::Indeterminate(r) => "Indeterminate("@ + quoted(r) + ")"@,
    }
}

impl AuthzVerdict {
    /// Whether the program may make privileged calls.
    pub fn is_trusted(&self) -> (r: bool)
        ensures
            r == (self@ is Trusted),
    {
        match self {
            AuthzVerdict::Trusted => true,
            _ => false,
        }
    }

    /// The verdict as it stands in diagnostic lines.
    pub fn debug_text(&self) -> (m: String)
        ensures
            m@ == verdict_debug(self@),
    {
        let mut m: String = String::new();
        match self {
            AuthzVerdict::Trusted => {
                m.append("Trusted");
            },
            AuthzVerdict::NotMicrosoftSigned => {
                m.append("NotMicrosoftSigned");
            },
            AuthzVerdict::NotSigned(s) => {
                m.append("NotSigned(");
                push_decimal(&mut m, *s as u64);
                m.append(")");
            },
            AuthzVerdict::Indeterminate(r) => {
                m.append("Indeterminate(");
                push_quoted(&mut m, r.as_str());
                m.append(")");
            },
        }
        assert(m@ =~= verdict_debug(self@));
        m
    }
}

/// What looking at the root of a chain gave.
#[derive(Debug, Clone, Copy, PartialEq, Eq, Structural)]
pub enum RootProbe {
    /// There is no provider data.
    NoProviderData,
    /// There is no signer.
    NoSigner,
    /// The signer has no chain.
    NoChain,
    /// The policy check could not be made, with this error code.
    PolicyCallFailed(u32),
    /// The policy check was made, with this result.
    PolicyStatus(u32),
}

/// The verdict on the root of the chain that signs an image.
pub open spec fn root_verdict(probe: RootProbe) -> VerdictView {
    match probe {
        RootProbe::NoProviderData => VerdictView::Indeterminate(
            "WTHelperProvDataFromStateData returned null"@,
        ),
        RootProbe::NoSigner => VerdictView::Indeterminate(
            "WTHelperGetProvSignerFromChain returned null"@,
        ),
        RootProbe::NoChain => VerdictView::Indeterminate("signer has null pChainContext"@),
        RootProbe::PolicyCallFailed(gle) => VerdictView::Indeterminate(
            "CertVerifyCertificateChainPolicy call failed: gle=0x"@ + hex_fixed(gle as nat, 8),
        ),
        RootProbe::PolicyStatus(e) => if e == 0 {
            VerdictView::Trusted
        } else {
            VerdictView::NotMicrosoftSigned
        },
    }
}

/// The verdict on a valid signature, given what its root is.
pub fn check_microsoft_root(probe: RootProbe) -> (v: AuthzVerdict)
    ensures
        v@ == root_verdict(probe),
        v@ is Trusted <==> probe == RootProbe::PolicyStatus(0),
        v@ is NotMicrosoftSigned <==> probe is PolicyStatus && probe != RootProbe::PolicyStatus(0),
        v@ is Indeterminate <==> !(probe is PolicyStatus),
{
    match probe {
        RootProbe::NoProviderData => AuthzVerdict::Indeterminate(
            "WTHelperProvDataFromStateData returned null".to_owned(),
        ),
        RootProbe::NoSigner => AuthzVerdict::Indeterminate(
            "WTHelperGetProvSignerFromChain returned null".to_owned(),
        ),
        RootProbe::NoChain => AuthzVerdict::Indeterminate(
            "signer has null pChainContext".to_owned(),
        ),
        RootProbe::PolicyCallFailed(gle) => {
            let mut m: String = "CertVerifyCertificateChainPolicy call failed: gle=0x".to_owned();
            push_hex_fixed(&mut m, gle, 8);
            AuthzVerdict::Indeterminate(m)
        },
        RootProbe::PolicyStatus(e) => if e == 0 {
            AuthzVerdict::Trusted
        } else {
            AuthzVerdict::NotMicrosoftSigned
        },
    }
}

/// The text for a program that could not be opened.
pub open spec fn open_failure(code: u32) -> Seq<char> {
    "failed to open the binary: Win32 0x"@ + hex_fixed(code as nat, 8)
}

/// The verdict on a program: what could not be opened is not determined, what
/// is not validly signed is not trusted, and for the rest the root decides.
pub open spec fn image_verdict(
    opened: Result<(), u32>,
    status: i32,
    root: Option<RootProbe>,
) -> VerdictView {
    match opened {
        Err(code) => VerdictView::Indeterminate(open_failure(code)),
        Ok(_) => if status != 0 {
            VerdictView::NotSigned(status as u32)
        } else {
            root_verdict(root->0)
        },
    }
}

/// The verdict on a program, given whether it could be opened, the status of
/// the check of its signature and, if that is valid, what its root is.
pub fn verify_image(opened: Result<(), u32>, status: i32, root: Option<RootProbe>) -> (v:
    AuthzVerdict)
    requires
        opened is Ok && status == 0 ==> root is Some,
    ensures
        v@ == image_verdict(opened, status, root),
        v@ is Trusted <==> opened is Ok && status == 0 && root == Some(RootProbe::PolicyStatus(0)),
        v@ is NotSigned <==> opened is Ok && status != 0,
        opened is Err ==> v@ is Indeterminate,
{
    match opened {
        Err(code) => {
            let mut m: String = "failed to open the binary: Win32 0x".to_owned();
            push_hex_fixed(&mut m, code, 8);
            AuthzVerdict::Indeterminate(m)
        },
        Ok(_) => match root {
            Some(probe) if status == 0 => check_microsoft_root(probe),
            _ => AuthzVerdict::NotSigned(status as u32),
        },
    }
}

/// The way to a verdict. Checking the signature leaves a state behind, which is
/// closed before the verdict is given.
#[derive(Debug)]
pub enum ImageCheck {
    /// Open the program.
    Open,
    /// Check the signature.
    Verify(Result<(), u32>),
    /// Look at the root of the chain.
    Root,
    /// Close the state of the check.
    Close(AuthzVerdict),
    /// The verdict.
    Done(AuthzVerdict),
}

/// What came of a step of a check.
#[derive(Debug, Clone, Copy)]
pub enum ImageEvent {
    /// Whether the program could be opened, or with which code not.
    Opened(Result<(), u32>),
    /// The status of the check of the signature.
    Verified(i32),
    /// What the root of the chain is.
    Root(RootProbe),
    /// The state is closed.
    Closed,
}

/// A check with its verdict as a view.
pub enum ImageCheckView {
    Open,
    Verify(Result<(), u32>),
    Root,
    Close(VerdictView),
    Done(VerdictView),
}

impl View for ImageCheck {
    type V = ImageCheckView;

    open spec fn view(&self) -> ImageCheckView {
        match *self {
            ImageCheck::Open => ImageCheckView::Open,
            ImageCheck::Verify(opened) => ImageCheckView::Verify(opened),
            ImageCheck::Root => ImageCheckView::Root,
            ImageCheck::Close(v) => ImageCheckView::Close(v@),
            ImageCheck::Done(v) => ImageCheckView::Done(v@),
        }
    }
}

/// A check after an event. The root is looked at only where the program could be
/// opened and its signature is valid; an event that no step asked for changes
/// nothing.
pub open spec fn next_check(c: ImageCheckView, e: ImageEvent) -> ImageCheckView {
    match (c, e) {
        (ImageCheckView::Open, ImageEvent::Opened(opened)) => ImageCheckView::Verify(opened),
        (ImageCheckView::Verify(opened), ImageEvent::Verified(status)) => if opened is Ok && status
            == 0 {
            ImageCheckView::Root
        } else {
            ImageCheckView::Close(image_verdict(opened, status, None))
        },
        (ImageCheckView::Root, ImageEvent::Root(probe)) => ImageCheckView::Close(
            image_verdict(Ok(()), 0, Some(probe)),
        ),
        (ImageCheckView::Close(v), ImageEvent::Closed) => ImageCheckView::Done(v),
        _ => c,
    }
}

impl ImageCheck {
    /// The check after a step.
    pub fn next(self, event: ImageEvent) -> (c: ImageCheck)
        ensures
            c@ == next_check(self@, event),
    {
        match (self, event) {
            (ImageCheck::Open, ImageEvent::Opened(opened)) => ImageCheck::Verify(opened),
            (ImageCheck::Verify(opened), ImageEvent::Verified(status)) => if opened.is_ok()
                && status == 0 {
                ImageCheck::Root
            } else {
                ImageCheck::Close(verify_image(opened, status, None))
            },
            (ImageCheck::Root, ImageEvent::Root(probe)) => ImageCheck::Close(
                verify_image(Ok(()), 0, Some(probe)),
            ),
            (ImageCheck::Close(v), ImageEvent::Closed) => ImageCheck::Done(v),
            (c, _) => c,
        }
    }
}

/// A check after a list of events.
pub open spec fn check_after(events: Seq<ImageEvent>) -> ImageCheckView
    decreases events.len(),
{
    if events.len() == 0 {
        ImageCheckView::Open
    } else {
        next_check(check_after(events.drop_last()), events.last())
    }
}

/// How often the signature was checked, which leaves a state behind.
pub open spec fn states_made(events: Seq<ImageEvent>) -> nat
    decreases events.len(),
{
    if events.len() == 0 {
        0
    } else {
        states_made(events.drop_last()) + if check_after(events.drop_last()) is Verify
            && events.last() is Verified {
            1nat
        } else {
            0
        }
    }
}

/// How often the state was closed.
pub open spec fn states_closed(events: Seq<ImageEvent>) -> nat
    decreases events.len(),
{
    if events.len() == 0 {
        0
    } else {
        states_closed(events.drop_last()) + if check_after(events.drop_last()) is Close
            && events.last() is Closed {
            1nat
        } else {
            0
        }
    }
}

/// Whatever the verdict, it is given only after the state of the check was made
/// once and closed once.
pub proof fn law_state_is_closed_once(events: Seq<ImageEvent>)
    ensures
        states_made(events) == (match check_after(events) {
            ImageCheckView::Open => 0nat,
            ImageCheckView::Verify(_) => 0nat,
            _ => 1nat,
        }),
        states_closed(events) == (if check_after(events) is Done {
            1nat
        } else {
            0nat
        }),
    decreases events.len(),
{
    if events.len() > 0 {
        law_state_is_closed_once(events.drop_last());
    }
}

/// A check gives the verdict on what its steps found.
pub proof fn law_check_gives_the_verdict(opened: Result<(), u32>, status: i32, probe: RootProbe)
    ensures
        ({
            let asks_root = opened is Ok && status == 0;
            let events = seq![ImageEvent::Opened(opened), ImageEvent::Verified(status)] + (
            if asks_root {
                seq![ImageEvent::Root(probe)]
            } else {
                Seq::empty()
            }) + seq![ImageEvent::Closed];
            check_after(events) == ImageCheckView::Done(
                image_verdict(
                    opened,
                    status,
                    if asks_root {
                        Some(probe)
                    } else {
                        None
                    },
                ),
            )
        }),
{
    let asks_root = opened is Ok && status == 0;
    let e1 = seq![ImageEvent::Opened(opened)];
    let e2 = e1.push(ImageEvent::Verified(status));
    let e3 = e2.push(ImageEvent::Root(probe));
    let last = if asks_root {
        e3
    } else {
        e2
    };
    let e4 = last.push(ImageEvent::Closed);
    reveal_with_fuel(check_after, 2);
    assert(e1.drop_last() =~= Seq::<ImageEvent>::empty());
    assert(e2.drop_last() =~= e1);
    assert(e3.drop_last() =~= e2);
    assert(e4.drop_last() =~= last);
    assert(check_after(e1) == ImageCheckView::Verify(opened));
    let events = seq![ImageEvent::Opened(opened), ImageEvent::Verified(status)] + (if asks_root {
        seq![ImageEvent::Root(probe)]
    } else {
        Seq::empty()
    }) + seq![ImageEvent::Closed];
    assert(events =~= e4);
    if asks_root {
        assert(check_after(e2) == ImageCheckView::Root);
    }
}

/// The text for a caller whose program is not known.
pub const NO_IMAGE: &'static str = "authz: caller image path unavailable";

/// What a debug build adds to what it lets pass.
pub const ALLOWING: &'static str = " (debug build: allowing)";

/// The text for a program that is not trusted.
pub open spec fn distrust(path: Seq<char>, v: VerdictView) -> Seq<char> {
    "authz: "@ + path + " -> "@ + verdict_debug(v)
}

/// Lets a privileged call pass or refuses it. `image` is the program of the
/// caller and the verdict on it, if the program is known. A debug build lets
/// everything pass and notes what it would have refused.
pub fn enforce(
    image: Option<(&str, &AuthzVerdict)>,
    debug_build: bool,
    notes: &mut Vec<Note>,
) -> (r: Result<(), String>)
    ensures
        r is Ok <==> debug_build || (image is Some && (image->0).1@ is Trusted),
        r is Err && image is None ==> r->Err_0@ == "authz: caller image path unavailable"@,
        r is Err && image is Some ==> r->Err_0@ == "authz: "@ + (image->0).0@ + " -> "@
            + verdict_debug((image->0).1@),
        note_views(final(notes)@).len() == note_views(old(notes)@).len() + if image is None
            && !debug_build {
            0int
        } else {
            1
        },
        (forall|i: int|
            0 <= i < note_views(old(notes)@).len() ==> #[trigger] note_views(final(notes)@)[i]
                == note_views(old(notes)@)[i]),
        match image {
            None => if debug_build {
                note_views(final(notes)@) == note_views(old(notes)@).push(
                    NoteView::Diag(NO_IMAGE@ + ALLOWING@),
                )
            } else {
                note_views(final(notes)@) == note_views(old(notes)@) && r->Err_0@ == NO_IMAGE@
            },
            Some((path, v)) => if v@ is Trusted {
                note_views(final(notes)@) == note_views(old(notes)@).push(
                    NoteView::Diag("authz: "@ + path@ + " -> Trusted (MS root)"@),
                )
            } else if debug_build {
                note_views(final(notes)@) == note_views(old(notes)@).push(
                    NoteView::Diag(distrust(path@, v@) + ALLOWING@),
                )
            } else {
                note_views(final(notes)@) == note_views(old(notes)@).push(
                    NoteView::Diag(distrust(path@, v@)),
                ) && r->Err_0@ == distrust(path@, v@)
            },
        },
{
    let (path, verdict): (&str, &AuthzVerdict) = match image {
        Some(i) => i,
        None => {
            if debug_build {
                let mut m: String = NO_IMAGE.to_owned();
                m.append(ALLOWING);
                note(notes, Note::Diag(m));
                return Ok(());
            }
            return Err(NO_IMAGE.to_owned());
        },
    };
    let mut m: String = "authz: ".to_owned();
    m.append(path);
    if verdict.is_trusted() {
        m.append(" -> Trusted (MS root)");
        note(notes, Note::Diag(m));
        return Ok(());
    }
    m.append(" -> ");
    m.append(verdict.debug_text().as_str());
    assert(m@ =~= distrust(path@, verdict@));
    if debug_build {
        m.append(ALLOWING);
        note(notes, Note::Diag(m));
        Ok(())
    } else {
        let said: String = m.as_str().to_owned();
        note(notes, Note::Diag(said));
        Err(m)
    }
}

/// A program is trusted exactly if it could be opened, its signature is valid,
/// and the policy on roots accepts its chain. The other verdicts tell which of
/// these failed.
pub proof fn law_trusted_iff(opened: Result<(), u32>, status: i32, root: Option<RootProbe>)
    requires
        opened is Ok && status == 0 ==> root is Some,
    ensures
        image_verdict(opened, status, root) is Trusted <==> opened is Ok && status == 0 && root
            == Some(RootProbe::PolicyStatus(0)),
        image_verdict(opened, status, root) is NotMicrosoftSigned <==> opened is Ok && status == 0
            && root->0 is PolicyStatus && root->0->PolicyStatus_0 != 0,
        opened is Ok && status != 0 ==> image_verdict(opened, status, root)
            == VerdictView::NotSigned(status as u32),
        image_verdict(opened, status, root) is Indeterminate <==> opened is Err || (status == 0
            && !(root->0 is PolicyStatus)),
{
}

/// What could not be determined is told by its cause, with the code where there
/// is one.
pub proof fn law_indeterminate_names_the_cause(code: u32, status: i32, root: Option<RootProbe>)
    ensures
        image_verdict(Err(code), status, root) == VerdictView::Indeterminate(
            "failed to open the binary: Win32 0x"@ + hex_fixed(code as nat, 8),
        ),
        root_verdict(RootProbe::PolicyCallFailed(code)) == VerdictView::Indeterminate(
            "CertVerifyCertificateChainPolicy call failed: gle=0x"@ + hex_fixed(code as nat, 8),
        ),
        root_verdict(RootProbe::NoProviderData) == VerdictView::Indeterminate(
            "WTHelperProvDataFromStateData returned null"@,
        ),
        root_verdict(RootProbe::NoSigner) == VerdictView::Indeterminate(
            "WTHelperGetProvSignerFromChain returned null"@,
        ),
        root_verdict(RootProbe::NoChain) == VerdictView::Indeterminate(
            "signer has null pChainContext"@,
        ),
{
}

/// A check goes its way step by step: it opens, it checks the signature whether
/// or not it could open, it looks at the root only of a valid signature, it
/// closes, and it ends. What no step asked for changes nothing.
pub proof fn law_check_steps(c: ImageCheckView, e: ImageEvent)
    ensures
        next_check(c, e) is Verify && !(c is Verify) <==> c is Open && e is Opened,
        next_check(c, e) is Root && !(c is Root) <==> c is Verify && e is Verified && c->Verify_0
            is Ok && e->Verified_0 == 0,
        next_check(c, e) is Close && !(c is Close) <==> (c is Root && e is Root) || (c is Verify
            && e is Verified && (c->Verify_0 is Err || e->Verified_0 != 0)),
        next_check(c, e) is Done && !(c is Done) <==> c is Close && e is Closed,
        c is Close && e is Closed ==> next_check(c, e)->Done_0 == c->Close_0,
        c is Done ==> next_check(c, e) == c,
        c is Open && !(e is Opened) || c is Verify && !(e is Verified) || c is Root && !(e is Root)
            || c is Close && !(e is Closed) ==> next_check(c, e) == c,
        c is Open && e is Opened ==> next_check(c, e)->Verify_0 == e->Opened_0,
{
}

/// How verdicts are written: by name, with the status or the reason where there
/// is one.
pub proof fn law_verdict_texts(s: u32, r: Seq<char>, path: Seq<char>, v: VerdictView)
    ensures
        verdict_debug(VerdictView::Trusted) == "Trusted"@,
        verdict_debug(VerdictView::NotMicrosoftSigned) == "NotMicrosoftSigned"@,
        verdict_debug(VerdictView::NotSigned(s)) == "NotSigned("@ + decimal(s as nat) + ")"@,
        verdict_debug(VerdictView::Indeterminate(r)) == "Indeterminate("@ + quoted(r) + ")"@,
        distrust(path, v) == "authz: "@ + path + " -> "@ + verdict_debug(v),
{
}

} // verus!
