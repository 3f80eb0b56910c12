use vstd::prelude::*;

verus! {

/// The outcome of a request to dispense tokens to a set of addresses.
/// Addresses and transaction ids are held in their textual form.
pub struct Response {
    /// The addresses that were dispensed tokens, with the transaction that did it.
    succeeded: Vec<(String, String)>,
    /// The addresses that could not be dispensed tokens, with a description of the error.
    failed: Vec<(String, String)>,
    /// The addresses that could not be parsed.
    unparsed: Vec<String>,
    /// The addresses that were not dispensed tokens because only a certain
    /// number of them are served per message.
    remaining: Vec<String>,
}

impl Response {
    /// Gathers the outcome of a request.
    pub fn new(
        succeeded: Vec<(String, String)>,
        failed: Vec<(String, String)>,
        unparsed: Vec<String>,
        remaining: Vec<String>,
    ) -> (r: Self)
        ensures
            r.succeeded_spec() == succeeded@,
            r.failed_spec() == failed@,
            r.unparsed_spec() == unparsed@,
            r.remaining_spec() == remaining@,
    {
        Response { succeeded, failed, unparsed, remaining }
    }

    pub closed spec fn succeeded_spec(&self) -> Seq<(String, String)> {
        self.succeeded@
    }

    pub closed spec fn failed_spec(&self) -> Seq<(String, String)> {
        self.failed@
    }

    pub closed spec fn unparsed_spec(&self) -> Seq<String> {
        self.unparsed@
    }

    pub closed spec fn remaining_spec(&self) -> Seq<String> {
        self.remaining@
    }

    /// Whether every address was dispensed tokens: none failed, none was
    /// unparsable, none was left over.
    pub open spec fn complete_success_spec(&self) -> bool {
        self.failed_spec().len() == 0 && self.unparsed_spec().len() == 0
            && self.remaining_spec().len() == 0
    }

    /// The answer of `complete_failure`: it is `false` only when no address
    /// was dispensed tokens, and then exactly when the response is a complete
    /// success.
    pub open spec fn complete_failure_spec(&self) -> bool {
        self.succeeded_spec().len() > 0 || !self.complete_success_spec()
    }

    /// Returns the addresses that were successfully dispensed tokens.
    pub fn succeeded(&self) -> (r: &[(String, String)])
        ensures
            r@ == self.succeeded_spec(),
    {
        self.succeeded.as_slice()
    }

    /// Returns the addresses that failed to be dispensed tokens, accompanied
    /// by a string describing the error.
    pub fn failed(&self) -> (r: &[(String, String)])
        ensures
            r@ == self.failed_spec(),
    {
        self.failed.as_slice()
    }

    /// Returns the addresses that couldn't be parsed.
    pub fn unparsed(&self) -> (r: &[String])
        ensures
            r@ == self.unparsed_spec(),
    {
        self.unparsed.as_slice()
    }

    /// Returns the addresses that were limited from being dispensed tokens
    /// because only a certain number are permitted to be given tokens per
    /// message.
    pub fn remaining(&self) -> (r: &[String])
        ensures
            r@ == self.remaining_spec(),
    {
        self.remaining.as_slice()
    }

    /// Returns `true` only if all addresses were successfully dispensed tokens.
    pub fn complete_success(&self) -> (b: bool)
        ensures
            b == self.complete_success_spec(),
            b == (self.failed_spec().len() == 0 && self.unparsed_spec().len() == 0
                && self.remaining_spec().len() == 0),
    {
        self.failed.len() == 0 && self.unparsed.len() == 0 && self.remaining.len() == 0
    }

    /// Returns `false` only if no addresses were successfully dispensed tokens.
    pub fn complete_failure(&self) -> (b: bool)
        ensures
            b == self.complete_failure_spec(),
            !b ==> self.succeeded_spec().len() == 0,
    {
        self.succeeded.len() > 0 || !self.complete_success()
    }
}

/// A response is a complete success exactly when no address failed, none
/// was unparsable and none was left over: any failed, unparsed or remaining
/// address rules it out, whatever succeeded.
pub proof fn lemma_complete_success_iff_nothing_missed(r: Response)
    ensures
        r.failed_spec().len() > 0 ==> !r.complete_success_spec(),
        r.unparsed_spec().len() > 0 ==> !r.complete_success_spec(),
        r.remaining_spec().len() > 0 ==> !r.complete_success_spec(),
        (r.failed_spec().len() == 0 && r.unparsed_spec().len() == 0 && r.remaining_spec().len()
            == 0) ==> r.complete_success_spec(),
{
}

/// `complete_failure` answers `false` only if no address was dispensed tokens.
pub proof fn lemma_failure_false_only_without_successes(r: Response)
    ensures
        !r.complete_failure_spec() ==> r.succeeded_spec().len() == 0,
{
}

/// When no address was dispensed tokens, `complete_failure` answers whether
/// the response fell short of a complete success, so the two never hold
/// together.
pub proof fn lemma_without_successes_failure_is_not_success(r: Response)
    requires
        r.succeeded_spec().len() == 0,
    ensures
        r.complete_failure_spec() == !r.complete_success_spec(),
        !(r.complete_success_spec() && r.complete_failure_spec()),
{
}

} // verus!
