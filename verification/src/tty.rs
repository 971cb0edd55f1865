//! Whether the tool talks to a terminal, and the decisions behind its
//! yes/no prompts.
use vstd::prelude::*;
use crate::split::{trim_spec, trim_str};
use crate::text::chars_of;

verus! {

/// Whether standard input and output are both terminals.
pub struct Tty {
    pub is_interactive: bool,
}

/// Why an interactive command cannot run.
#[derive(Debug, Clone, Copy, PartialEq, Eq, Structural)]
pub enum TtyError {
    NotInteractive,
}

impl TtyError {
    /// The error message.
    pub fn message(&self) -> (m: String)
        ensures
            m@ == "This command requires an interactive terminal (TTY)"@,
    {
        "This command requires an interactive terminal (TTY)".to_string()
    }
}

/// How a yes/no question gets its answer.
#[derive(Debug, Clone, Copy, PartialEq, Eq, Structural)]
pub enum ConfirmStep {
    /// The answer is known without asking.
    Answer(bool),
    /// Ask, and read the reply.
    Prompt,
}

/// The answer a reply gives: the default when blank, else yes exactly
/// when the trimmed reply starts with `y` or `Y`.
pub open spec fn reply_answer_spec(reply: Seq<char>, default: bool) -> bool {
    let t = trim_spec(reply);
    if t.len() == 0 {
        default
    } else {
        t[0] == 'y' || t[0] == 'Y'
    }
}

/// The answer a typed reply gives to a yes/no question.
pub fn reply_answer(reply: &str, default: bool) -> (r: bool)
    ensures
        r == reply_answer_spec(reply@, default),
{
    let t = trim_str(reply);
    let cs = chars_of(t.as_str());
    if cs.len() == 0 {
        default
    } else {
        cs[0] == 'y' || cs[0] == 'Y'
    }
}

/// How a typed reply answers a yes/no question: a blank reply takes the
/// default; otherwise the reply is yes exactly when its first non-blank
/// character is `y` or `Y`, whatever the default and whatever follows, so
/// `Y`, `yes`, `  YES ` are yes and `n`, `N`, `x` are no.
pub proof fn lemma_reply_answers(reply: Seq<char>, default: bool)
    ensures
        trim_spec(reply).len() == 0 ==> reply_answer_spec(reply, default) == default,
        trim_spec(reply).len() > 0 && trim_spec(reply)[0] == 'Y' ==> reply_answer_spec(reply, default),
        trim_spec(reply).len() > 0 && trim_spec(reply)[0] == 'y' ==> reply_answer_spec(reply, default),
        trim_spec(reply).len() > 0 && trim_spec(reply)[0] != 'y' && trim_spec(reply)[0] != 'Y'
            ==> !reply_answer_spec(reply, default),
{
}

/// The answer does not depend on the case of the first letter: two
/// non-blank replies that read the same after trimming except that one
/// starts with `y` where the other starts with `Y` give the same answer.
pub proof fn lemma_reply_case_of_first_letter(a: Seq<char>, b: Seq<char>, default: bool)
    requires
        trim_spec(a).len() > 0,
        trim_spec(a).len() == trim_spec(b).len(),
        trim_spec(a)[0] == 'y',
        trim_spec(b)[0] == 'Y',
        trim_spec(a).skip(1) == trim_spec(b).skip(1),
    ensures
        reply_answer_spec(a, default) == reply_answer_spec(b, default),
        reply_answer_spec(a, default),
{
}

/// The suffix shown after a yes/no prompt: the default in capitals.
pub fn confirm_suffix(default: bool) -> (r: String)
    ensures
        default ==> r@ == "[Y/n]"@,
        !default ==> r@ == "[y/N]"@,
{
    if default { "[Y/n]".to_string() } else { "[y/N]".to_string() }
}

impl Tty {
    /// A terminal with the given interactivity.
    pub fn with_interactive(is_interactive: bool) -> (t: Self)
        ensures
            t.is_interactive == is_interactive,
    {
        Tty { is_interactive }
    }

    /// Whether the tool runs interactively.
    pub fn is_interactive(&self) -> (r: bool)
        ensures
            r == self.is_interactive,
    {
        self.is_interactive
    }

    /// Fails unless interactive.
    pub fn require_interactive(&self) -> (r: Result<(), TtyError>)
        ensures
            self.is_interactive <==> r is Ok,
    {
        if self.is_interactive {
            Ok(())
        } else {
            Err(TtyError::NotInteractive)
        }
    }

    /// How to answer a yes/no question: `--yes` answers yes; a terminal, or
    /// piped input that has data, is asked; otherwise the default holds.
    pub fn confirm(&self, prompt: &str, default: bool, yes_flag: bool, stdin_has_data: bool) -> (r: ConfirmStep)
        ensures
            r == (if yes_flag {
                ConfirmStep::Answer(true)
            } else if self.is_interactive || stdin_has_data {
                ConfirmStep::Prompt
            } else {
                ConfirmStep::Answer(default)
            }),
    {
        if yes_flag {
            return ConfirmStep::Answer(true);
        }
        if self.is_interactive || stdin_has_data {
            return ConfirmStep::Prompt;
        }
        ConfirmStep::Answer(default)
    }
}

} // verus!
