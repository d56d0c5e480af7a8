//! What a launch decides: which arguments count, whether the window may be closed, and whether
//! the app registers itself to come back after a power cut.

use vstd::prelude::*;
use vstd::slice::slice_subrange;

use crate::cli;
use crate::cli::{parse, Provisioning, ProvisioningView};

verus! {

/// The arguments of a launch: all but the first, which is the program.
pub open spec fn arguments(argv: Seq<&str>) -> Seq<Seq<char>> {
    if argv.len() > 0 {
        cli::texts(argv.skip(1))
    } else {
        Seq::empty()
    }
}

/// What a launch provisions. The first argument is the program.
///
/// A second launch is how re-provisioning works: the running instance takes the new arguments,
/// and the new process exits immediately.
pub fn provisioning_of(argv: &[&str]) -> (out: Provisioning)
    ensures
        out@ == cli::provisioned(
            if argv@.len() > 0 {
                cli::texts(argv@.skip(1))
            } else {
                Seq::empty()
            },
            ProvisioningView::empty(),
        ),
        out@ == cli::provisioned(arguments(argv@), ProvisioningView::empty()),
{
    if argv.len() == 0 {
        return Provisioning::default();
    }
    proof {
        assert(argv@.subrange(1, argv@.len() as int) =~= argv@.skip(1));
    }
    parse(slice_subrange(argv, 1, argv.len()))
}

/// Whether a window stays open when it is asked to close.
pub open spec fn stays_open(windowed: bool) -> bool {
    !windowed
}

/// Whether a request to close the window is refused. Alt+F4 and the window chrome must not be
/// able to end a campaign; a window on a developer's desk may be closed.
pub fn refuses_close(windowed: bool) -> (refused: bool)
    ensures
        refused == !windowed,
        refused == stays_open(windowed),
{
    !windowed
}

/// What to do about starting at logon.
#[derive(Debug, Clone, Copy, PartialEq, Eq, Structural)]
pub enum Autostart {
    /// A developer's machine does not quietly acquire a logon item.
    Skip,
    AlreadyRegistered,
    Register,
    /// Whether the app is registered could not be read.
    Unknown,
}

/// What to do about starting at logon.
pub open spec fn at_logon(windowed: bool, registered: Option<bool>) -> Autostart {
    if windowed {
        Autostart::Skip
    } else {
        match registered {
            Some(true) => Autostart::AlreadyRegistered,
            Some(false) => Autostart::Register,
            None => Autostart::Unknown,
        }
    }
}

/// What to do about starting at logon, where `registered` says whether the app is registered, as
/// far as that could be read. A store screen must come back on its own after a power cut.
pub fn autostart(windowed: bool, registered: Option<bool>) -> (autostart: Autostart)
    ensures
        autostart == (if windowed {
            Autostart::Skip
        } else {
            match registered {
                Some(true) => Autostart::AlreadyRegistered,
                Some(false) => Autostart::Register,
                None => Autostart::Unknown,
            }
        }),
        autostart == at_logon(windowed, registered),
{
    if windowed {
        return Autostart::Skip;
    }
    match registered {
        Some(true) => Autostart::AlreadyRegistered,
        Some(false) => Autostart::Register,
        None => Autostart::Unknown,
    }
}

/// The program itself is no argument; what follows it are the arguments, in order.
pub proof fn law_the_program_is_no_argument(argv: Seq<&str>, i: int)
    ensures
        argv.len() <= 1 ==> arguments(argv).len() == 0,
        argv.len() > 0 ==> arguments(argv).len() == argv.len() - 1,
        1 <= i < argv.len() ==> arguments(argv)[i - 1] == argv[i]@,
{
}

/// The app registers itself exactly where it is known not to be registered, and never on a
/// developer's desk, where its window may also be closed; a store screen stays open.
pub proof fn law_a_store_screen_comes_back(windowed: bool, registered: Option<bool>)
    ensures
        at_logon(windowed, registered) is Register <==> !windowed && registered == Some(false),
        at_logon(windowed, registered) is AlreadyRegistered <==> !windowed && registered == Some(
            true,
        ),
        at_logon(windowed, registered) is Unknown <==> !windowed && registered is None,
        at_logon(windowed, registered) is Skip <==> windowed,
        !windowed <==> stays_open(windowed),
{
}

} // verus!
