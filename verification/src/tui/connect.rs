//! What to say when the daemon cannot be reached at startup.
use vstd::prelude::*;
use vstd::string::*;

use crate::text::{contains_text, occurs};

verus! {

/// The message for a failed first poll. A daemon that does not know the call is
/// too old; otherwise it is probably not running.
pub open spec fn probe_text(error: Seq<char>) -> Seq<char> {
    if occurs(error, "UnknownMethod"@) || occurs(error, "Unknown method"@) {
        "the io-thread-controller daemon on this host does not implement GetSnapshot -- please redeploy the daemon (io-thread-controller binary + restart the systemd unit); the TUI expects the July 2026 D-Bus surface.  Original error: "@
            + error
    } else {
        "initial GetSnapshot failed ("@ + error + "); is the daemon running?"@
    }
}

/// Explain a failed first poll.
pub fn probe_failure(error: &str) -> (r: String)
    ensures
        r@ == probe_text(error@),
{
    if contains_text(error, "UnknownMethod") || contains_text(error, "Unknown method") {
        "the io-thread-controller daemon on this host does not implement GetSnapshot -- please redeploy the daemon (io-thread-controller binary + restart the systemd unit); the TUI expects the July 2026 D-Bus surface.  Original error: ".to_owned().concat(
            error,
        )
    } else {
        "initial GetSnapshot failed (".to_owned().concat(error).concat(
            "); is the daemon running?",
        )
    }
}

/// The message when the dashboard cannot start.
pub fn no_daemon(interface: &str, object_path: &str, why: &str) -> (r: String)
    ensures
        r@
            == "iothread-tui requires an io-thread-controller daemon on the system bus ("@
            + interface@ + ", "@ + object_path@ + "): "@ + why@,
{
    "iothread-tui requires an io-thread-controller daemon on the system bus (".to_owned().concat(
        interface,
    ).concat(", ").concat(object_path).concat("): ").concat(why)
}

/// A daemon that does not know the method is told apart from one that is not there,
/// and either message holds the error itself.
pub proof fn probe_messages_hold_the_error(error: Seq<char>)
    ensures
        occurs(probe_text(error), error),
        occurs(error, "UnknownMethod"@) || occurs(error, "Unknown method"@)
            ==> error.is_suffix_of(probe_text(error)),
{
    let known = "the io-thread-controller daemon on this host does not implement GetSnapshot -- please redeploy the daemon (io-thread-controller binary + restart the systemd unit); the TUI expects the July 2026 D-Bus surface.  Original error: "@;
    let front = "initial GetSnapshot failed ("@;
    let back = "); is the daemon running?"@;
    let none = Seq::<char>::empty();
    crate::text::texts_occur_where_they_stand(known, error, none, error);
    assert(known + error + none == known + error);
    crate::text::texts_occur_where_they_stand(front, error, back, error);
}

} // verus!
