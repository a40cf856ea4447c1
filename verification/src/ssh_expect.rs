//! Expect/send replies to device prompts in an SSH terminal, after the shell
//! channel has opened (this is not SSH authentication). The username step
//! always comes before the password step, and each runs at most once.

use vstd::prelude::*;
use crate::bytes::views_of;
use crate::login_expect::BytePattern;
use crate::login_expect::CompiledStep;
use crate::login_expect::ExpectState;
use crate::login_expect::ExpectStepView;
use crate::login_expect::LoginScript;
use crate::login_expect::advance_result;
use crate::login_expect::compile_login_send;
use crate::login_expect::compile_pattern;
use crate::login_expect::fresh_state;
use crate::login_expect::login_send;
use crate::login_expect::pattern_matches_empty;
use crate::login_expect::regex_accepts;
use crate::login_expect::regex_first_match;
use crate::login_expect::script_inv;
use crate::login_expect::sends_of;
use crate::login_expect::steps_view;

verus! {

/// One configured prompt: the pattern awaited and the text to send.
pub struct TerminalExpectSend {
    pub expect: String,
    pub send: String,
}

/// The username and password prompts of an SSH account.
pub struct SshAccountExpect {
    pub username: TerminalExpectSend,
    pub password: TerminalExpectSend,
}

/// Which of the two prompts.
#[derive(Clone, Copy, Debug, PartialEq, Eq, Structural)]
pub enum SshExpectField {
    Username,
    Password,
}

/// Why a prompt's configuration is refused.
#[derive(Clone, Copy, Debug, PartialEq, Eq, Structural)]
pub enum ExpectFailure {
    /// A send text without a pattern.
    SendWithoutExpect,
    /// A pattern that the regex crate refuses.
    InvalidExpect,
    /// A pattern that matches empty input.
    ExpectMatchesEmpty,
    /// Neither a send text nor a non-empty credential to fall back on.
    MissingSend,
}

/// A refused SSH expect configuration.
#[derive(Debug)]
pub enum LoginExpectError {
    SendWithoutExpect(SshExpectField),
    InvalidExpect(SshExpectField, regex::Error),
    ExpectMatchesEmpty(SshExpectField),
    MissingSend(SshExpectField),
}

/// The message for a refusal.
pub open spec fn failure_text(field: SshExpectField, failure: ExpectFailure) -> Seq<char> {
    match (field, failure) {
        (SshExpectField::Username, ExpectFailure::SendWithoutExpect) => "SSH username expect is required when send is configured"@,
        (SshExpectField::Password, ExpectFailure::SendWithoutExpect) => "SSH password expect is required when send is configured"@,
        (SshExpectField::Username, ExpectFailure::InvalidExpect) => "invalid SSH username expect regular expression"@,
        (SshExpectField::Password, ExpectFailure::InvalidExpect) => "invalid SSH password expect regular expression"@,
        (SshExpectField::Username, ExpectFailure::ExpectMatchesEmpty) => "SSH username expect regular expression cannot match empty input"@,
        (SshExpectField::Password, ExpectFailure::ExpectMatchesEmpty) => "SSH password expect regular expression cannot match empty input"@,
        (SshExpectField::Username, ExpectFailure::MissingSend) => "SSH username expect has no send value or runtime fallback"@,
        (SshExpectField::Password, ExpectFailure::MissingSend) => "SSH password expect has no send value or runtime fallback"@,
    }
}

impl LoginExpectError {
    /// The prompt and the reason.
    pub open spec fn failure(&self) -> (SshExpectField, ExpectFailure) {
        match self {
            LoginExpectError::SendWithoutExpect(f) => (*f, ExpectFailure::SendWithoutExpect),
            LoginExpectError::InvalidExpect(f, _) => (*f, ExpectFailure::InvalidExpect),
            LoginExpectError::ExpectMatchesEmpty(f) => (*f, ExpectFailure::ExpectMatchesEmpty),
            LoginExpectError::MissingSend(f) => (*f, ExpectFailure::MissingSend),
        }
    }

    /// The error's message.
    pub fn message(&self) -> (r: &'static str)
        ensures
            r@ == failure_text(self.failure().0, self.failure().1),
    {
        match self {
            LoginExpectError::SendWithoutExpect(SshExpectField::Username) => "SSH username expect is required when send is configured",
            LoginExpectError::SendWithoutExpect(SshExpectField::Password) => "SSH password expect is required when send is configured",
            LoginExpectError::InvalidExpect(SshExpectField::Username, _) => "invalid SSH username expect regular expression",
            LoginExpectError::InvalidExpect(SshExpectField::Password, _) => "invalid SSH password expect regular expression",
            LoginExpectError::ExpectMatchesEmpty(SshExpectField::Username) => "SSH username expect regular expression cannot match empty input",
            LoginExpectError::ExpectMatchesEmpty(SshExpectField::Password) => "SSH password expect regular expression cannot match empty input",
            LoginExpectError::MissingSend(SshExpectField::Username) => "SSH username expect has no send value or runtime fallback",
            LoginExpectError::MissingSend(SshExpectField::Password) => "SSH password expect has no send value or runtime fallback",
        }
    }
}

/// The text of an optional string.
pub open spec fn text_of(o: Option<&str>) -> Option<Seq<char>> {
    match o {
        Some(s) => Some(s@),
        None => None,
    }
}

/// The step for one prompt: none when neither a pattern nor a send text is
/// configured; otherwise the pattern must compile and must not match empty
/// input, and the send text falls back to the non-empty credential.
pub open spec fn ssh_step(expect: Seq<char>, send: Seq<char>, fallback: Option<Seq<char>>) -> Result<Option<ExpectStepView>, ExpectFailure> {
    if expect.len() == 0 {
        if send.len() == 0 {
            Ok(None)
        } else {
            Err(ExpectFailure::SendWithoutExpect)
        }
    } else if !regex_accepts(expect) {
        Err(ExpectFailure::InvalidExpect)
    } else if regex_first_match(expect, Seq::empty()) is Some {
        Err(ExpectFailure::ExpectMatchesEmpty)
    } else if send.len() > 0 {
        Ok(Some(ExpectStepView { pattern: expect, send: login_send(send) }))
    } else {
        match fallback {
            Some(f) => if f.len() > 0 {
                Ok(Some(ExpectStepView { pattern: expect, send: login_send(f) }))
            } else {
                Err(ExpectFailure::MissingSend)
            },
            None => Err(ExpectFailure::MissingSend),
        }
    }
}

/// The steps of an optional step.
pub open spec fn step_list(o: Option<ExpectStepView>) -> Seq<ExpectStepView> {
    match o {
        Some(s) => seq![s],
        None => Seq::empty(),
    }
}

/// The script's steps for an account, username first, or the first refused
/// prompt and why.
pub open spec fn ssh_steps(config: SshAccountExpect, username: Seq<char>, password: Option<Seq<char>>) -> Result<Seq<ExpectStepView>, (SshExpectField, ExpectFailure)> {
    let user_fallback = if username.len() == 0 { None } else { Some(username) };
    match ssh_step(config.username.expect@, config.username.send@, user_fallback) {
        Err(k) => Err((SshExpectField::Username, k)),
        Ok(u) => match ssh_step(config.password.expect@, config.password.send@, password) {
            Err(k) => Err((SshExpectField::Password, k)),
            Ok(p) => Ok(step_list(u) + step_list(p)),
        },
    }
}

/// The view of an optional compiled step.
pub open spec fn compiled_view(o: Option<CompiledStep>) -> Option<ExpectStepView> {
    match o {
        Some(s) => Some(s@),
        None => None,
    }
}

fn compile_step(field: SshExpectField, step: &TerminalExpectSend, fallback: Option<&str>) -> (r: Result<Option<CompiledStep>, LoginExpectError>)
    ensures
        match r {
            Ok(o) => ssh_step(step.expect@, step.send@, text_of(fallback)) == Ok::<_, ExpectFailure>(compiled_view(o)),
            Err(e) => ssh_step(step.expect@, step.send@, text_of(fallback)) == Err::<Option<ExpectStepView>, _>(e.failure().1)
                && e.failure().0 == field,
        },
{
    if step.expect.as_str().is_empty() {
        if step.send.as_str().is_empty() {
            return Ok(None);
        }
        return Err(LoginExpectError::SendWithoutExpect(field));
    }
    let expect: BytePattern = match compile_pattern(step.expect.as_str()) {
        Ok(p) => p,
        Err(e) => return Err(LoginExpectError::InvalidExpect(field, e)),
    };
    if pattern_matches_empty(&expect) {
        return Err(LoginExpectError::ExpectMatchesEmpty(field));
    }
    let send: &str = if !step.send.as_str().is_empty() {
        step.send.as_str()
    } else {
        match fallback {
            Some(value) => if !value.is_empty() {
                value
            } else {
                return Err(LoginExpectError::MissingSend(field));
            },
            None => return Err(LoginExpectError::MissingSend(field)),
        }
    };
    Ok(Some(CompiledStep::new(expect, compile_login_send(send))))
}

/// The SSH login script: the username step, then the password step.
pub struct SshLoginExpect {
    script: LoginScript,
}

impl View for SshLoginExpect {
    type V = ExpectState;

    closed spec fn view(&self) -> ExpectState {
        self.script@
    }
}

impl SshLoginExpect {
    /// Compiles the account's prompts; an empty send text falls back to the
    /// runtime username or password.
    pub fn new(config: &SshAccountExpect, username: &str, password: Option<&str>) -> (r: Result<Self, LoginExpectError>)
        ensures
            match r {
                Ok(s) => ssh_steps(*config, username@, text_of(password)) == Ok::<_, (SshExpectField, ExpectFailure)>(s@.steps)
                    && s@ == fresh_state(s@.steps) && script_inv(s@),
                Err(e) => ssh_steps(*config, username@, text_of(password)) == Err::<Seq<ExpectStepView>, _>(e.failure()),
            },
    {
        let user_fallback: Option<&str> = if username.is_empty() {
            None
        } else {
            Some(username)
        };
        let first = compile_step(SshExpectField::Username, &config.username, user_fallback);
        let first = match first {
            Ok(o) => o,
            Err(e) => return Err(e),
        };
        let second = match compile_step(SshExpectField::Password, &config.password, password) {
            Ok(o) => o,
            Err(e) => return Err(e),
        };
        let ghost u = compiled_view(first);
        let ghost p = compiled_view(second);
        let mut steps: Vec<CompiledStep> = Vec::new();
        match first {
            Some(s) => steps.push(s),
            None => {},
        }
        match second {
            Some(s) => steps.push(s),
            None => {},
        }
        assert(steps_view(steps@) =~= step_list(u) + step_list(p));
        Ok(SshLoginExpect { script: LoginScript::new(steps) })
    }

    /// Feeds server output and gives the replies to send, in order.
    pub fn advance(&mut self, data: &[u8]) -> (r: Vec<Vec<u8>>)
        requires
            script_inv(old(self)@),
        ensures
            (views_of(r@), final(self)@) == advance_result(old(self)@, data@),
            script_inv(final(self)@),
            final(self)@.steps == old(self)@.steps,
            old(self)@.next_step <= final(self)@.next_step,
            views_of(r@) == sends_of(old(self)@.steps.subrange(old(self)@.next_step as int, final(self)@.next_step as int)),
    {
        self.script.advance(data)
    }

    /// Whether both steps have run.
    pub fn is_complete(&self) -> (r: bool)
        ensures
            r == (self@.next_step >= self@.steps.len()),
    {
        self.script.is_complete()
    }

    /// How many bytes of unmatched output are kept.
    pub fn pending_len(&self) -> (r: usize)
        ensures
            r == self@.pending.len(),
    {
        self.script.pending_len()
    }
}

} // verus!
