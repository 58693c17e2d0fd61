//! Which remediation commands may be offered and run, and which rule sets
//! may be accepted from outside.
//!
//! A command is safe when it holds no shell metacharacter and is one of the
//! allowed commands, or one of them followed by a space and arguments.
//!
//! The name of a tool is looked for on the machine only where it is made of
//! letters, digits, `-` and `_`: nothing that could be a path or a piece of
//! shell.

use crate::rules::Rule;
use crate::text::{chars_of, same_text, starts_with};
use vstd::prelude::*;

verus! {

/// How many commands are allowed.
pub const ALLOWED_COUNT: usize = 7;

/// Whether a character means something to a shell beyond itself.
pub open spec fn is_metacharacter(c: char) -> bool {
    c == ';' || c == '|' || c == '&' || c == '$' || c == '`' || c == '>' || c == '<' || c == '\n'
        || c == '\r' || c == '(' || c == ')' || c == '{' || c == '}'
}

/// Whether a command holds a shell metacharacter.
pub open spec fn has_metacharacter(cmd: Seq<char>) -> bool {
    exists|i: int| 0 <= i < cmd.len() && is_metacharacter(#[trigger] cmd[i])
}

/// The allowed commands.
pub open spec fn allowed_command(i: int) -> Seq<char> {
    if i == 0 {
        "bluetoothctl power off"@
    } else if i == 1 {
        "bluetoothctl power on"@
    } else if i == 2 {
        "snap remove"@
    } else if i == 3 {
        "flatpak uninstall"@
    } else if i == 4 {
        "balooctl"@
    } else if i == 5 {
        "systemctl --user"@
    } else {
        "docker image prune"@
    }
}

/// Whether a command is the allowed one, or the allowed one with arguments
/// after a space.
pub open spec fn matches_allowed(cmd: Seq<char>, allowed: Seq<char>) -> bool {
    cmd == allowed || allowed.push(' ').is_prefix_of(cmd)
}

/// Whether a command matches one of the allowed commands.
pub open spec fn on_allowlist(cmd: Seq<char>) -> bool {
    exists|i: int| 0 <= i < ALLOWED_COUNT && matches_allowed(cmd, #[trigger] allowed_command(i))
}

/// Whether a command may be offered and run.
pub open spec fn spec_is_safe(cmd: Seq<char>) -> bool {
    !has_metacharacter(cmd) && on_allowlist(cmd)
}

/// Whether a character is a shell metacharacter.
pub fn is_shell_metacharacter(c: char) -> (r: bool)
    ensures
        r == is_metacharacter(c),
{
    c == ';' || c == '|' || c == '&' || c == '$' || c == '`' || c == '>' || c == '<' || c == '\n'
        || c == '\r' || c == '(' || c == ')' || c == '{' || c == '}'
}

/// The allowed command at a place of the list.
pub fn allowed_at(i: usize) -> (r: &'static str)
    requires
        i < ALLOWED_COUNT,
    ensures
        r@ == allowed_command(i as int),
{
    if i == 0 {
        "bluetoothctl power off"
    } else if i == 1 {
        "bluetoothctl power on"
    } else if i == 2 {
        "snap remove"
    } else if i == 3 {
        "flatpak uninstall"
    } else if i == 4 {
        "balooctl"
    } else if i == 5 {
        "systemctl --user"
    } else {
        "docker image prune"
    }
}

/// Decides whether a remediation command may be offered and run.
pub fn is_safe_auto_fix(cmd: &str) -> (r: bool)
    ensures
        r == spec_is_safe(cmd@),
{
    let chars = chars_of(cmd);
    let mut i: usize = 0;
    while i < chars.len()
        invariant
            i <= chars.len(),
            chars@ == cmd@,
            forall|k: int| 0 <= k < i ==> !is_metacharacter(#[trigger] chars@[k]),
        decreases chars.len() - i,
    {
        if is_shell_metacharacter(chars[i]) {
            return false;
        }
        i += 1;
    }
    let mut k: usize = 0;
    while k < ALLOWED_COUNT
        invariant
            k <= ALLOWED_COUNT,
            chars@ == cmd@,
            !has_metacharacter(cmd@),
            forall|w: int| 0 <= w < k ==> !matches_allowed(cmd@, #[trigger] allowed_command(w)),
        decreases ALLOWED_COUNT - k,
    {
        let mut allowed = chars_of(allowed_at(k));
        if same_text(&chars, &allowed) {
            return true;
        }
        allowed.push(' ');
        if starts_with(&chars, &allowed) {
            return true;
        }
        k += 1;
    }
    false
}

/// A command that holds a shell metacharacter is refused, whatever else it
/// holds.
pub proof fn lemma_metacharacter_refused(cmd: Seq<char>, at: int)
    requires
        0 <= at < cmd.len(),
        is_metacharacter(cmd[at]),
    ensures
        !spec_is_safe(cmd),
{
}

/// Whether a rule offers no command, or one that is safe.
pub open spec fn offers_safe_fix(rule: Rule) -> bool {
    rule.auto_fix matches Some(cmd) ==> spec_is_safe(cmd@)
}

/// Why a rule set is refused.
#[derive(Clone, Copy, Debug, PartialEq, Eq, Structural)]
pub enum RuleSetError {
    /// The set holds no rule.
    Empty,
    /// The rule at this place offers a command that is not safe.
    UnsafeAutoFix { index: usize },
}

/// What the check of a rule set gives: the set is taken when it holds a rule
/// and every command that it offers is safe; else the error tells why, and
/// for an unsafe command names the first rule that offers one.
pub open spec fn checked(rules: Seq<Rule>, r: Result<(), RuleSetError>) -> bool {
    match r {
        Ok(_) => rules.len() > 0 && forall|i: int|
            0 <= i < rules.len() ==> offers_safe_fix(#[trigger] rules[i]),
        Err(RuleSetError::Empty) => rules.len() == 0,
        Err(RuleSetError::UnsafeAutoFix { index }) => {
            &&& index < rules.len()
            &&& !offers_safe_fix(rules[index as int])
            &&& forall|i: int| 0 <= i < index ==> offers_safe_fix(#[trigger] rules[i])
        },
    }
}

/// Checks a rule set that comes from a source that is not trusted. One unsafe
/// command anywhere refuses the whole set.
pub fn check_rule_set(rules: &Vec<Rule>) -> (r: Result<(), RuleSetError>)
    ensures
        checked(rules@, r),
{
    if rules.len() == 0 {
        return Err(RuleSetError::Empty);
    }
    let mut i: usize = 0;
    while i < rules.len()
        invariant
            i <= rules.len(),
            rules.len() > 0,
            forall|k: int| 0 <= k < i ==> offers_safe_fix(#[trigger] rules@[k]),
        decreases rules.len() - i,
    {
        match &rules[i].auto_fix {
            Some(cmd) => {
                if !is_safe_auto_fix(cmd.as_str()) {
                    return Err(RuleSetError::UnsafeAutoFix { index: i });
                }
            },
            None => {},
        }
        i += 1;
    }
    Ok(())
}

/// Whether a character is a letter or a digit, as `char::is_alphanumeric`
/// decides it from the Unicode tables of the standard library.
pub uninterp spec fn is_alphanumeric_char(c: char) -> bool;

/// `char::is_alphanumeric` says whether a character is alphabetic or numeric
/// by Unicode; the answer depends on the character alone.
pub assume_specification[ char::is_alphanumeric ](c: char) -> (r: bool)
    ensures
        r == is_alphanumeric_char(c),
;

/// Whether a text can be the name of a tool: letters, digits, `-` and `_`
/// only.
pub open spec fn is_tool_name(name: Seq<char>) -> bool {
    forall|i: int|
        0 <= i < name.len() ==> is_alphanumeric_char(#[trigger] name[i]) || name[i] == '-'
            || name[i] == '_'
}

/// Decides whether a text can be the name of a tool. A caller that is about
/// to look for a tool on the machine asks this first, and does not look
/// where the answer is no.
pub fn is_plain_tool_name(name: &str) -> (r: bool)
    ensures
        r == is_tool_name(name@),
{
    let chars = chars_of(name);
    let mut i: usize = 0;
    while i < chars.len()
        invariant
            i <= chars.len(),
            chars@ == name@,
            forall|k: int|
                0 <= k < i ==> is_alphanumeric_char(#[trigger] chars@[k]) || chars@[k] == '-'
                    || chars@[k] == '_',
        decreases chars.len() - i,
    {
        let c = chars[i];
        if !(c.is_alphanumeric() || c == '-' || c == '_') {
            return false;
        }
        i += 1;
    }
    true
}

} // verus!
