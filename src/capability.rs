use vstd::prelude::*;

verus! {

/// Whether `errno` is the code by which the kernel says that a system call
/// does not exist.
pub uninterp spec fn reports_not_implemented(errno: i32) -> bool;

/// Relies on `libc::ENOSYS`: the target's "function not implemented" code.
#[verifier::external_body]
fn errno_not_implemented(errno: i32) -> (r: bool)
    ensures
        r == reports_not_implemented(errno),
{
    errno == libc::ENOSYS
}

/// Whether one probe of the descriptor-open call shows that the kernel has
/// it: only a failure that reports "not implemented" means it is missing.
/// Any other failure means that the call exists and refused the argument.
pub open spec fn probe_shows_support(ret: i64, not_implemented: bool) -> bool {
    !(ret < 0 && not_implemented)
}

/// Classifies one probe: `ret` is what the call returned, and
/// `not_implemented` whether the error it left is "not implemented".
pub fn classify_probe(ret: i64, not_implemented: bool) -> (r: bool)
    ensures
        r == probe_shows_support(ret, not_implemented),
{
    ret >= 0 || !not_implemented
}

/// Decides from one probe whether the kernel offers the descriptor-open
/// call: `ret` is what the call returned and `errno` the error code it left.
pub fn is_supported(ret: i64, errno: i32) -> (r: bool)
    ensures
        r == probe_shows_support(ret, reports_not_implemented(errno)),
        ret >= 0 ==> r,
{
    let not_implemented = errno_not_implemented(errno);
    classify_probe(ret, not_implemented)
}

/// What a flag holds after `value` is offered to it: the first value
/// offered stays.
pub open spec fn after_settle(state: Option<bool>, value: bool) -> Option<bool> {
    match state {
        Some(v) => Some(v),
        None => Some(value),
    }
}

/// What a flag holds after each of `offers` is offered to it in turn.
pub open spec fn after_settles(state: Option<bool>, offers: Seq<bool>) -> Option<bool>
    decreases offers.len(),
{
    if offers.len() == 0 {
        state
    } else {
        after_settle(after_settles(state, offers.drop_last()), offers.last())
    }
}

/// A once-only record of the capability: the first value settled stays for
/// good, and every later query sees it.
pub struct CapabilityFlag {
    value: Option<bool>,
}

impl CapabilityFlag {
    pub closed spec fn view(&self) -> Option<bool> {
        self.value
    }

    /// A flag that has not been settled yet.
    pub fn new() -> (r: Self)
        ensures
            r@ == None::<bool>,
    {
        CapabilityFlag { value: None }
    }

    /// The settled value, if any.
    pub fn cached(&self) -> (r: Option<bool>)
        ensures
            r == self@,
    {
        self.value
    }

    /// Settles the flag to `value` unless it is settled already, and returns
    /// the value that it holds afterwards.
    pub fn settle(&mut self, value: bool) -> (r: bool)
        ensures
            final(self)@ == after_settle(old(self)@, value),
            final(self)@ == Some(r),
    {
        match self.value {
            Some(v) => v,
            None => {
                self.value = Some(value);
                value
            },
        }
    }
}

/// However many values are offered to a fresh flag, it holds the first one
/// from the first offer on, so every query after any number of offers
/// answers the same.
pub proof fn lemma_flag_keeps_first_value(offers: Seq<bool>)
    requires
        offers.len() > 0,
    ensures
        forall|n: int|
            1 <= n <= offers.len() ==> #[trigger] after_settles(None, offers.take(n)) == Some(
                offers[0],
            ),
{
    assert forall|n: int| 1 <= n <= offers.len() implies #[trigger] after_settles(
        None,
        offers.take(n),
    ) == Some(offers[0]) by {
        lemma_after_settles_first(offers.take(n));
    }
}

proof fn lemma_after_settles_first(offers: Seq<bool>)
    requires
        offers.len() > 0,
    ensures
        after_settles(None, offers) == Some(offers[0]),
    decreases offers.len(),
{
    if offers.len() > 1 {
        lemma_after_settles_first(offers.drop_last());
        assert(offers.drop_last()[0] == offers[0]);
    } else {
        assert(after_settles(None, offers.drop_last()) == None::<bool>);
    }
}

} // verus!
