//! The trigger compiler: from the text of a rule's trigger to the ordered
//! list of its conditions.
//!
//! A trigger is a list of clauses joined by `&&`. A clause is a keyword with
//! its comparison sign, then an operand. A clause that is empty, that opens
//! with no known keyword, or whose operand cannot be read contributes nothing:
//! the other clauses still compile.
//!
//! Whether an operand writes a floating-point number is decided here; which
//! number it writes is for the caller to say: [`float_operand`] hands out
//! the text to read, and [`parse_condition`] takes what it read as.

use crate::condition::{Condition, ConditionModel, Key, Operand, Payload, KEY_COUNT};
use crate::number::{is_float_literal, is_float_text, parse_unsigned, read_unsigned, Float};
use crate::pattern::{pattern_compiles, Pattern};
use crate::text::{
    chars_of, lowered, same_text, starts_with, string_of, to_lower, trim, trimmed, trimmed_from,
    trimmed_part,
};
use vstd::prelude::*;

verus! {

/// Where the first `&&` of a text begins, or the length of the text if it
/// holds none.
pub open spec fn first_separator(s: Seq<char>) -> nat
    decreases s.len(),
{
    if s.len() < 2 {
        s.len()
    } else if s[0] == '&' && s[1] == '&' {
        0
    } else {
        1 + first_separator(s.drop_first())
    }
}

/// The parts of a text between its `&&`, from left to right. A text without
/// `&&` is its own single part.
pub open spec fn segments(s: Seq<char>) -> Seq<Seq<char>>
    decreases s.len(),
{
    let at = first_separator(s) as int;
    if at + 2 <= s.len() {
        seq![s.take(at)] + segments(s.skip(at + 2))
    } else {
        seq![s]
    }
}

/// Whether a text holds `&&` at place `at`.
pub open spec fn separator_at(s: Seq<char>, at: int) -> bool {
    0 <= at && at + 2 <= s.len() && s[at] == '&' && s[at + 1] == '&'
}

/// The first separator is where the recursion says: no `&&` begins before
/// it, and unless it is the length of the text, `&&` begins at it.
pub proof fn lemma_first_separator(s: Seq<char>)
    ensures
        first_separator(s) <= s.len(),
        first_separator(s) < s.len() ==> separator_at(s, first_separator(s) as int),
        forall|k: int| 0 <= k < first_separator(s) ==> !separator_at(s, k),
    decreases s.len(),
{
    if s.len() >= 2 && !(s[0] == '&' && s[1] == '&') {
        let rest = s.drop_first();
        lemma_first_separator(rest);
        assert forall|k: int| 0 <= k < first_separator(s) implies !separator_at(s, k) by {
            if k > 0 && separator_at(s, k) {
                assert(rest[k - 1] == s[k] && rest[k] == s[k + 1]);
                assert(separator_at(rest, k - 1));
            }
        }
        if first_separator(s) < s.len() {
            let at = first_separator(rest) as int;
            assert(rest[at] == s[at + 1] && rest[at + 1] == s[at + 2]);
        }
    }
}

/// Segments put together again with `&&` between them.
pub open spec fn joined(parts: Seq<Seq<char>>) -> Seq<char>
    decreases parts.len(),
{
    if parts.len() == 0 {
        Seq::empty()
    } else if parts.len() == 1 {
        parts[0]
    } else {
        parts[0] + seq!['&', '&'] + joined(parts.drop_first())
    }
}

/// A text has at least one segment, and its segments joined with `&&` are
/// the text again.
pub proof fn lemma_segments_join(s: Seq<char>)
    ensures
        segments(s).len() >= 1,
        joined(segments(s)) == s,
    decreases s.len(),
{
    let at = first_separator(s) as int;
    lemma_first_separator(s);
    if at + 2 <= s.len() {
        let rest = s.skip(at + 2);
        lemma_segments_join(rest);
        let parts = segments(s);
        assert(parts[0] == s.take(at));
        assert(parts.drop_first() =~= segments(rest));
        assert(s.take(at) + seq!['&', '&'] + rest =~= s);
    }
}

/// No segment of a text holds `&&`.
pub proof fn lemma_segments_hold_no_separator(s: Seq<char>)
    ensures
        forall|i: int, k: int|
            0 <= i < segments(s).len() ==> !#[trigger] separator_at(segments(s)[i], k),
    decreases s.len(),
{
    let at = first_separator(s) as int;
    let parts = segments(s);
    lemma_first_separator(s);
    if at + 2 <= s.len() {
        let rest = s.skip(at + 2);
        lemma_segments_hold_no_separator(rest);
        assert forall|i: int, k: int| 0 <= i < parts.len() implies !#[trigger] separator_at(
            parts[i],
            k,
        ) by {
            if i == 0 {
                let head = s.take(at);
                if separator_at(head, k) {
                    assert(head[k] == s[k] && head[k + 1] == s[k + 1]);
                    assert(separator_at(s, k));
                }
            } else {
                assert(parts[i] == segments(rest)[i - 1]);
            }
        }
    } else {
        assert forall|i: int, k: int| 0 <= i < parts.len() implies !#[trigger] separator_at(
            parts[i],
            k,
        ) by {
            assert(parts[i] == s);
            if separator_at(s, k) {
                assert(k < first_separator(s));
            }
        }
    }
}

/// The clauses of a trigger: its segments, each without the white space
/// around it.
pub open spec fn clauses(s: Seq<char>) -> Seq<Seq<char>> {
    Seq::new(segments(s).len(), |i: int| trim(segments(s)[i]))
}

/// The texts that a vector of character vectors holds.
pub open spec fn texts(v: Seq<Vec<char>>) -> Seq<Seq<char>> {
    Seq::new(v.len(), |i: int| v[i]@)
}

/// Splits a trigger into its clauses.
pub fn split_clauses(v: &Vec<char>) -> (r: Vec<Vec<char>>)
    ensures
        texts(r@) == clauses(v@),
{
    let mut out: Vec<Vec<char>> = Vec::new();
    let ghost mut done: Seq<Seq<char>> = Seq::empty();
    let mut start: usize = 0;
    let mut i: usize = 0;
    proof {
        assert(v@.skip(0) =~= v@);
        assert(done + segments(v@.skip(0)) =~= segments(v@));
    }
    while v.len() - i >= 2
        invariant
            start <= i <= v.len(),
            segments(v@) == done + segments(v@.skip(start as int)),
            out@.len() == done.len(),
            forall|k: int| 0 <= k < done.len() ==> (#[trigger] out@[k])@ == trim(done[k]),
            first_separator(v@.skip(start as int)) == (i - start) + first_separator(
                v@.skip(i as int),
            ),
        decreases v.len() - i,
    {
        let ghost rest = v@.skip(start as int);
        let ghost tail = v@.skip(i as int);
        proof {
            assert(tail[0] == v@[i as int]);
            assert(tail[1] == v@[i + 1]);
        }
        if v[i] == '&' && v[i + 1] == '&' {
            let piece = trimmed_part(v, start, i);
            proof {
                let at = i - start;
                assert(first_separator(tail) == 0);
                assert(first_separator(rest) == at);
                assert(rest.take(at) =~= v@.subrange(start as int, i as int));
                assert(rest.skip(at + 2) =~= v@.skip(i + 2));
                assert(segments(rest) == seq![rest.take(at)] + segments(rest.skip(at + 2)));
                assert(done + (seq![rest.take(at)] + segments(rest.skip(at + 2))) =~= done.push(
                    rest.take(at),
                ) + segments(v@.skip(i + 2)));
                done = done.push(rest.take(at));
            }
            out.push(piece);
            start = i + 2;
            i = start;
        } else {
            proof {
                assert(tail.drop_first() =~= v@.skip(i + 1));
            }
            i += 1;
        }
    }
    let piece = trimmed_from(v, start);
    proof {
        let rest = v@.skip(start as int);
        let tail = v@.skip(i as int);
        assert(first_separator(tail) == tail.len());
        assert(first_separator(rest) == rest.len());
        assert(segments(rest) =~= seq![rest]);
        assert(done + seq![rest] =~= done.push(rest));
        done = done.push(rest);
    }
    out.push(piece);
    proof {
        assert(segments(v@) == done);
        assert(texts(out@) =~= clauses(v@));
    }
    out
}

/// The first kind, from place `from` on, whose keyword the clause opens with.
pub open spec fn first_key(token: Seq<char>, from: int) -> Option<Key>
    decreases KEY_COUNT - from,
{
    if from < 0 || from >= KEY_COUNT {
        None
    } else if Key::spec_at(from).spec_keyword().is_prefix_of(token) {
        Some(Key::spec_at(from))
    } else {
        first_key(token, from + 1)
    }
}

/// The kind of a clause: the first whose keyword it opens with.
pub open spec fn recognise(token: Seq<char>) -> Option<Key> {
    first_key(token, 0)
}

/// The kind of a clause, if it opens with a known keyword.
pub fn key_of(token: &Vec<char>) -> (r: Option<Key>)
    ensures
        r == recognise(token@),
        r matches Some(key) ==> key.spec_keyword().is_prefix_of(token@),
{
    let mut k: usize = 0;
    while k < KEY_COUNT
        invariant
            k <= KEY_COUNT,
            first_key(token@, 0) == first_key(token@, k as int),
        decreases KEY_COUNT - k,
    {
        let key = Key::at(k);
        let word = chars_of(key.keyword());
        if starts_with(token, &word) {
            return Some(key);
        }
        k += 1;
    }
    None
}

/// The operand of a clause of the given kind: what follows the keyword,
/// without the white space around it.
pub open spec fn operand_text(token: Seq<char>, key: Key) -> Seq<char> {
    trim(token.skip(key.spec_keyword().len() as int))
}

/// The flag that a lower-case word names.
pub open spec fn flag_word(word: Seq<char>) -> Option<bool> {
    if word == "true"@ || word == "1"@ || word == "yes"@ {
        Some(true)
    } else if word == "false"@ || word == "0"@ || word == "no"@ {
        Some(false)
    } else {
        None
    }
}

/// The flag that a text names, whatever its case and the white space
/// around it.
pub open spec fn parse_flag(value: Seq<char>) -> Option<bool> {
    flag_word(to_lower(trim(value)))
}

/// Reads the flag that a lower-case word names.
pub fn read_flag_word(word: &Vec<char>) -> (r: Option<bool>)
    ensures
        r == flag_word(word@),
{
    if same_text(word, &chars_of("true")) || same_text(word, &chars_of("1")) || same_text(
        word,
        &chars_of("yes"),
    ) {
        Some(true)
    } else if same_text(word, &chars_of("false")) || same_text(word, &chars_of("0")) || same_text(
        word,
        &chars_of("no"),
    ) {
        Some(false)
    } else {
        None
    }
}

/// Reads a flag: `true`, `1` or `yes`, `false`, `0` or `no`, in any case and
/// with any white space around it.
pub fn parse_bool_token(value: &str) -> (r: Option<bool>)
    ensures
        r == parse_flag(value@),
{
    let word = lowered(&trimmed(&chars_of(value)));
    read_flag_word(&word)
}

/// What the operand of a clause reads as. `number` is what the caller read
/// the operand as, where the kind asks for a floating-point number: it
/// counts only where the operand writes such a number.
pub open spec fn read_operand(key: Key, text: Seq<char>, number: Option<Float>) -> Option<
    Payload,
> {
    match key.spec_operand() {
        Operand::Number => match number {
            Some(value) => if is_float_literal(text) {
                Some(Payload::Number(value))
            } else {
                None
            },
            None => None,
        },
        Operand::Count => match parse_unsigned(text, key.spec_count_limit()) {
            Some(value) => Some(Payload::Count(value)),
            None => None,
        },
        Operand::Text => Some(Payload::Text(text)),
        Operand::LowerText => Some(Payload::Text(to_lower(text))),
        Operand::Pattern => if pattern_compiles(text) {
            Some(Payload::Text(text))
        } else {
            None
        },
        Operand::Flag => match flag_word(to_lower(text)) {
            Some(value) => Some(Payload::Flag(value)),
            None => None,
        },
    }
}

/// The condition that a clause compiles to, if any.
pub open spec fn spec_parse_condition(token: Seq<char>, number: Option<Float>) -> Option<
    ConditionModel,
> {
    if token.len() == 0 {
        None
    } else {
        match recognise(token) {
            None => None,
            Some(key) => match read_operand(key, operand_text(token, key), number) {
                Some(payload) => Some(ConditionModel { key, payload }),
                None => None,
            },
        }
    }
}

/// The text that the caller is to read as a floating-point number before it
/// compiles the clause: the operand, where the clause is of a kind that
/// compares with such a number and the operand writes one.
pub open spec fn spec_float_operand(token: Seq<char>) -> Option<Seq<char>> {
    if token.len() == 0 {
        None
    } else {
        match recognise(token) {
            Some(key) => if key.spec_operand() == Operand::Number && is_float_literal(
                operand_text(token, key),
            ) {
                Some(operand_text(token, key))
            } else {
                None
            },
            None => None,
        }
    }
}

/// Whether an optional string holds the given optional text.
pub open spec fn holds_text(s: Option<String>, text: Option<Seq<char>>) -> bool {
    match s {
        Some(inner) => text == Some(inner@),
        None => text is None,
    }
}

/// The operand of a clause given as characters, where it is to be read as a
/// floating-point number.
pub fn float_operand_of(token: &Vec<char>) -> (r: Option<String>)
    ensures
        holds_text(r, spec_float_operand(token@)),
{
    if token.len() == 0 {
        return None;
    }
    match key_of(token) {
        None => None,
        Some(key) => {
            match key.operand() {
                Operand::Number => {
                    let word = chars_of(key.keyword());
                    let text = trimmed_from(token, word.len());
                    if is_float_text(&text) {
                        Some(string_of(&text))
                    } else {
                        None
                    }
                },
                _ => None,
            }
        },
    }
}

/// The text of a clause that is to be read as a floating-point number, or
/// `None` where the clause has no such operand.
pub fn float_operand(token: &str) -> (r: Option<String>)
    ensures
        holds_text(r, spec_float_operand(token@)),
{
    float_operand_of(&chars_of(token))
}

/// Whether an optional condition is the given optional value of the language.
pub open spec fn compiles_to(c: Option<Condition>, model: Option<ConditionModel>) -> bool {
    match c {
        Some(inner) => model == Some(inner@),
        None => model is None,
    }
}

/// Compiles one clause given as characters.
pub fn compile_clause(token: &Vec<char>, number: Option<Float>) -> (r: Option<Condition>)
    ensures
        compiles_to(r, spec_parse_condition(token@, number)),
{
    if token.len() == 0 {
        return None;
    }
    let key = match key_of(token) {
        None => {
            return None;
        },
        Some(key) => key,
    };
    let word = chars_of(key.keyword());
    let text = trimmed_from(token, word.len());
    match key.operand() {
        Operand::Number => match number {
            Some(value) => if is_float_text(&text) {
                Some(Condition::with_number(key, value))
            } else {
                None
            },
            None => None,
        },
        Operand::Count => match read_unsigned(&text, key.count_limit()) {
            Some(value) => Some(Condition::with_count(key, value)),
            None => None,
        },
        Operand::Text => Some(Condition::with_text(key, string_of(&text))),
        Operand::LowerText => Some(Condition::with_text(key, string_of(&lowered(&text)))),
        Operand::Pattern => {
            let source = string_of(&text);
            match Pattern::compile(source.as_str()) {
                Some(pattern) => Some(Condition::LogContains(pattern)),
                None => None,
            }
        },
        Operand::Flag => match read_flag_word(&lowered(&text)) {
            Some(value) => Some(Condition::with_flag(key, value)),
            None => None,
        },
    }
}

/// Compiles one clause of a trigger. The clause is taken as it stands: white
/// space before the keyword makes it unknown. `number` is what the text given
/// by [`float_operand`] reads as, `None` where there is no such text. A
/// clause that asks for a number and gets none is dropped.
pub fn parse_condition(token: &str, number: Option<Float>) -> (r: Option<Condition>)
    ensures
        compiles_to(r, spec_parse_condition(token@, number)),
{
    compile_clause(&chars_of(token), number)
}

/// The number read for the clause at place `i`, none where the caller gave
/// none for that place.
pub open spec fn number_at(numbers: Seq<Option<Float>>, i: int) -> Option<Float> {
    if 0 <= i < numbers.len() {
        numbers[i]
    } else {
        None
    }
}

/// The conditions that the first `upto` clauses compile to, in order.
pub open spec fn compile_upto(
    tokens: Seq<Seq<char>>,
    numbers: Seq<Option<Float>>,
    upto: int,
) -> Seq<ConditionModel>
    decreases upto,
{
    if upto <= 0 {
        Seq::empty()
    } else {
        let before = compile_upto(tokens, numbers, upto - 1);
        match spec_parse_condition(tokens[upto - 1], number_at(numbers, upto - 1)) {
            Some(c) => before.push(c),
            None => before,
        }
    }
}

/// The conditions that a trigger compiles to: those of its clauses that
/// compile, in the order of the clauses.
pub open spec fn spec_parse_trigger(trigger: Seq<char>, numbers: Seq<Option<Float>>) -> Seq<
    ConditionModel,
> {
    compile_upto(clauses(trigger), numbers, clauses(trigger).len() as int)
}

/// The values of the language that a list of conditions holds.
pub open spec fn models(v: Seq<Condition>) -> Seq<ConditionModel> {
    Seq::new(v.len(), |i: int| v[i]@)
}

/// For each clause of a trigger, in order, the text that is to be read as a
/// floating-point number, or `None` where the clause has no such operand.
pub fn float_operands(trigger: &str) -> (r: Vec<Option<String>>)
    ensures
        r@.len() == clauses(trigger@).len(),
        forall|i: int|
            0 <= i < r@.len() ==> holds_text(
                #[trigger] r@[i],
                spec_float_operand(clauses(trigger@)[i]),
            ),
{
    let tokens = split_clauses(&chars_of(trigger));
    let mut out: Vec<Option<String>> = Vec::new();
    let mut i: usize = 0;
    while i < tokens.len()
        invariant
            i <= tokens.len(),
            texts(tokens@) == clauses(trigger@),
            out@.len() == i,
            forall|k: int|
                0 <= k < i ==> holds_text(
                    #[trigger] out@[k],
                    spec_float_operand(clauses(trigger@)[k]),
                ),
        decreases tokens.len() - i,
    {
        proof {
            assert(texts(tokens@)[i as int] == tokens@[i as int]@);
        }
        out.push(float_operand_of(&tokens[i]));
        i += 1;
    }
    proof {
        assert(texts(tokens@).len() == tokens@.len());
    }
    out
}

/// Compiles a trigger into its conditions. `numbers` holds, for each clause
/// in order, what the text given by [`float_operands`] reads as; a place past
/// its end counts as `None`.
pub fn parse_trigger(trigger: &str, numbers: &Vec<Option<Float>>) -> (r: Vec<Condition>)
    ensures
        models(r@) == spec_parse_trigger(trigger@, numbers@),
{
    let tokens = split_clauses(&chars_of(trigger));
    let mut out: Vec<Condition> = Vec::new();
    let mut i: usize = 0;
    proof {
        assert(models(out@) =~= compile_upto(clauses(trigger@), numbers@, 0));
    }
    while i < tokens.len()
        invariant
            i <= tokens.len(),
            texts(tokens@) == clauses(trigger@),
            models(out@) == compile_upto(clauses(trigger@), numbers@, i as int),
        decreases tokens.len() - i,
    {
        let number = if i < numbers.len() {
            numbers[i]
        } else {
            None
        };
        proof {
            assert(texts(tokens@)[i as int] == tokens@[i as int]@);
        }
        let ghost before = out@;
        match compile_clause(&tokens[i], number) {
            Some(c) => {
                out.push(c);
                proof {
                    assert(models(out@) =~= models(before).push(c@));
                }
            },
            None => {},
        }
        i += 1;
    }
    proof {
        assert(texts(tokens@).len() == tokens@.len());
    }
    out
}

/// How many of the first `upto` clauses are not empty.
pub open spec fn nonempty_upto(tokens: Seq<Seq<char>>, upto: int) -> nat
    decreases upto,
{
    if upto <= 0 {
        0
    } else if tokens[upto - 1].len() > 0 {
        nonempty_upto(tokens, upto - 1) + 1
    } else {
        nonempty_upto(tokens, upto - 1)
    }
}

/// Whether every clause that is not empty compiles.
pub open spec fn all_clauses_valid(tokens: Seq<Seq<char>>, numbers: Seq<Option<Float>>) -> bool {
    forall|i: int|
        0 <= i < tokens.len() && (#[trigger] tokens[i]).len() > 0 ==> spec_parse_condition(
            tokens[i],
            number_at(numbers, i),
        ) is Some
}

/// Decides whether a trigger is valid throughout: whether every clause of it
/// that is not empty compiles. `numbers` is as for [`parse_trigger`]. A rule
/// source that is to fail on a misspelt clause, where [`parse_trigger`] would
/// drop the clause and go on, asks this first.
pub fn is_strictly_valid(trigger: &str, numbers: &Vec<Option<Float>>) -> (r: bool)
    ensures
        r == all_clauses_valid(clauses(trigger@), numbers@),
{
    let tokens = split_clauses(&chars_of(trigger));
    let mut i: usize = 0;
    proof {
        assert(texts(tokens@).len() == tokens@.len());
    }
    while i < tokens.len()
        invariant
            i <= tokens.len(),
            texts(tokens@) == clauses(trigger@),
            forall|k: int|
                0 <= k < i && (#[trigger] clauses(trigger@)[k]).len() > 0 ==> spec_parse_condition(
                    clauses(trigger@)[k],
                    number_at(numbers@, k),
                ) is Some,
        decreases tokens.len() - i,
    {
        let number = if i < numbers.len() {
            numbers[i]
        } else {
            None
        };
        proof {
            assert(texts(tokens@)[i as int] == tokens@[i as int]@);
        }
        if tokens[i].len() > 0 && compile_clause(&tokens[i], number).is_none() {
            proof {
                assert(clauses(trigger@)[i as int].len() > 0);
            }
            return false;
        }
        i += 1;
    }
    true
}

/// Where every clause that is not empty compiles, the first `upto` clauses
/// give as many conditions as there are clauses among them that are not
/// empty.
pub proof fn lemma_valid_clauses_compile_upto(
    tokens: Seq<Seq<char>>,
    numbers: Seq<Option<Float>>,
    upto: int,
)
    requires
        all_clauses_valid(tokens, numbers),
        0 <= upto <= tokens.len(),
    ensures
        compile_upto(tokens, numbers, upto).len() == nonempty_upto(tokens, upto),
    decreases upto,
{
    if upto > 0 {
        lemma_valid_clauses_compile_upto(tokens, numbers, upto - 1);
        assert(tokens[upto - 1].len() > 0 ==> spec_parse_condition(
            tokens[upto - 1],
            number_at(numbers, upto - 1),
        ) is Some);
    }
}

/// A trigger made of valid clauses only compiles to as many conditions as it
/// has clauses that are not empty.
pub proof fn lemma_valid_trigger_condition_count(trigger: Seq<char>, numbers: Seq<Option<Float>>)
    requires
        all_clauses_valid(clauses(trigger), numbers),
    ensures
        spec_parse_trigger(trigger, numbers).len() == nonempty_upto(
            clauses(trigger),
            clauses(trigger).len() as int,
        ),
{
    lemma_valid_clauses_compile_upto(clauses(trigger), numbers, clauses(trigger).len() as int);
}

/// A trigger never compiles to more conditions than it has clauses that are
/// not empty: an empty clause gives none.
pub proof fn lemma_condition_count_bound(
    tokens: Seq<Seq<char>>,
    numbers: Seq<Option<Float>>,
    upto: int,
)
    requires
        0 <= upto <= tokens.len(),
    ensures
        compile_upto(tokens, numbers, upto).len() <= nonempty_upto(tokens, upto),
    decreases upto,
{
    if upto > 0 {
        lemma_condition_count_bound(tokens, numbers, upto - 1);
    }
}

} // verus!
