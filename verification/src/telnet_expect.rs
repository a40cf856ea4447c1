//! Telnet expect/send login scripts. Patterns are byte regular expressions
//! matched against the decoded server output; the script keeps a bounded
//! window so that a prompt split across reads still matches, and runs its
//! steps strictly in their configured order, each at most once.

use vstd::prelude::*;
use crate::bytes::views_of;
use crate::login_expect::BytePattern;
use crate::login_expect::CompiledStep;
use crate::login_expect::ExpectState;
use crate::login_expect::ExpectStepView;
use crate::login_expect::LoginScript;
use crate::login_expect::advance_result;
use crate::login_expect::compile_login_send;
use crate::login_expect::compile_pattern;
use crate::login_expect::fresh_state;
use crate::login_expect::login_send;
use crate::login_expect::pattern_matches_empty;
use crate::login_expect::regex_accepts;
use crate::login_expect::regex_first_match;
use crate::login_expect::regex_syntax_error;
use crate::login_expect::script_inv;
use crate::login_expect::sends_of;
use crate::login_expect::steps_view;

verus! {

/// One configured step: the pattern awaited and the text to send.
pub struct TelnetLoginStep {
    pub expect: String,
    pub send: String,
}

/// The steps compiled from the first `k` configured steps, or `None` once
/// one of them is refused. A step with an empty pattern is skipped; a
/// pattern must compile and must not match empty input.
pub open spec fn telnet_prefix(steps: Seq<TelnetLoginStep>, k: nat) -> Option<Seq<ExpectStepView>>
    decreases k,
{
    if k == 0 {
        Some(Seq::empty())
    } else {
        match telnet_prefix(steps, (k - 1) as nat) {
            None => None,
            Some(acc) => {
                let step = steps[k - 1];
                if step.expect@.len() == 0 {
                    Some(acc)
                } else if !regex_accepts(step.expect@) || regex_first_match(step.expect@, Seq::empty()) is Some {
                    None
                } else {
                    Some(acc.push(ExpectStepView { pattern: step.expect@, send: login_send(step.send@) }))
                }
            },
        }
    }
}

/// The script's steps for a configuration, or `None` when a step is refused.
pub open spec fn telnet_steps(steps: Seq<TelnetLoginStep>) -> Option<Seq<ExpectStepView>> {
    telnet_prefix(steps, steps.len())
}

/// Once a step is refused, the configuration is refused.
proof fn lemma_refusal_stays(steps: Seq<TelnetLoginStep>, k: nat, j: nat)
    requires
        k <= j,
        telnet_prefix(steps, k) is None,
    ensures
        telnet_prefix(steps, j) is None,
    decreases j - k,
{
    if k < j {
        lemma_refusal_stays(steps, k, (j - 1) as nat);
    }
}

/// A Telnet login script.
pub struct TelnetLoginScript {
    script: LoginScript,
}

impl View for TelnetLoginScript {
    type V = ExpectState;

    closed spec fn view(&self) -> ExpectState {
        self.script@
    }
}

impl TelnetLoginScript {
    /// Compiles the configured steps, skipping those with an empty pattern.
    /// A pattern the regex crate refuses gives its error; one that matches
    /// empty input gives a syntax error.
    pub fn new(steps: &[TelnetLoginStep]) -> (r: Result<Self, regex::Error>)
        ensures
            match r {
                Ok(s) => telnet_steps(steps@) == Some(s@.steps) && s@ == fresh_state(s@.steps) && script_inv(s@),
                Err(_) => telnet_steps(steps@) is None,
            },
    {
        let mut compiled: Vec<CompiledStep> = Vec::new();
        let mut i: usize = 0;
        assert(steps_view(compiled@) =~= Seq::<ExpectStepView>::empty());
        while i < steps.len()
            invariant
                i <= steps@.len(),
                telnet_prefix(steps@, i as nat) == Some(steps_view(compiled@)),
            decreases steps@.len() - i,
        {
            let step = &steps[i];
            if step.expect.as_str().is_empty() {
                i = i + 1;
                continue;
            }
            let expect: BytePattern = match compile_pattern(step.expect.as_str()) {
                Ok(p) => p,
                Err(e) => {
                    proof {
                        lemma_refusal_stays(steps@, (i + 1) as nat, steps@.len());
                    }
                    return Err(e);
                },
            };
            if pattern_matches_empty(&expect) {
                proof {
                    lemma_refusal_stays(steps@, (i + 1) as nat, steps@.len());
                }
                return Err(regex_syntax_error("Telnet expect 正则不能匹配空内容"));
            }
            let ghost before = steps_view(compiled@);
            compiled.push(CompiledStep::new(expect, compile_login_send(step.send.as_str())));
            assert(steps_view(compiled@) =~= before.push(compiled@.last()@));
            i = i + 1;
        }
        Ok(TelnetLoginScript { script: LoginScript::new(compiled) })
    }

    /// Feeds server output and gives the replies to send, in order.
    pub fn advance(&mut self, data: &[u8]) -> (r: Vec<Vec<u8>>)
        requires
            script_inv(old(self)@),
        ensures
            (views_of(r@), final(self)@) == advance_result(old(self)@, data@),
            script_inv(final(self)@),
            final(self)@.steps == old(self)@.steps,
            old(self)@.next_step <= final(self)@.next_step,
            views_of(r@) == sends_of(old(self)@.steps.subrange(old(self)@.next_step as int, final(self)@.next_step as int)),
    {
        self.script.advance(data)
    }

    /// Whether every step has run.
    pub fn is_complete(&self) -> (r: bool)
        ensures
            r == (self@.next_step >= self@.steps.len()),
    {
        self.script.is_complete()
    }

    /// How many bytes of unmatched output are kept.
    pub fn pending_len(&self) -> (r: usize)
        ensures
            r == self@.pending.len(),
    {
        self.script.pending_len()
    }
}

} // verus!
