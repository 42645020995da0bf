//! Payee templates.
//!
//! A template is text with placeholders. A placeholder is an opening brace,
//! a reference of one or more characters other than the closing brace, and a
//! closing brace: `{vendor}`, `{1}`. A reference made of digits names a
//! capture group by its number; any other names it by its name. Expanding a
//! template replaces each placeholder by the text its group captured. A
//! brace that opens no placeholder stands for itself.

use vstd::prelude::*;
use crate::pattern::optional_strings_view;
use crate::text::{chars_of, push_char, string_of};

verus! {

/// How many characters other than a closing brace follow from position
/// `from` before the text ends or a closing brace is met.
pub open spec fn reference_len(s: Seq<char>, from: int) -> nat
    decreases s.len() - from,
{
    if from < 0 || from >= s.len() || s[from] == '}' {
        0
    } else {
        1 + reference_len(s, from + 1)
    }
}

/// Whether a placeholder starts at position `at`.
pub open spec fn placeholder_at(s: Seq<char>, at: int) -> bool {
    &&& 0 <= at < s.len()
    &&& s[at] == '{'
    &&& reference_len(s, at + 1) > 0
    &&& at + 1 + reference_len(s, at + 1) < s.len()
}

/// Whether the text holds a placeholder, and so is a template.
pub open spec fn has_placeholder(s: Seq<char>) -> bool {
    exists|at: int| placeholder_at(s, at)
}

/// Whether the reference is a number: decimal digits and nothing else.
pub open spec fn is_number(reference: Seq<char>) -> bool {
    &&& reference.len() > 0
    &&& forall|i: int| 0 <= i < reference.len() ==> '0' <= #[trigger] reference[i] <= '9'
}

/// The number that the decimal digits stand for.
pub open spec fn number_value(digits: Seq<char>) -> nat
    decreases digits.len(),
{
    if digits.len() == 0 {
        0
    } else {
        number_value(digits.drop_last()) * 10 + (digits.last() as nat - '0' as nat) as nat
    }
}

/// The position of the first group from `from` on that bears the name, or
/// the number of names where none does.
pub open spec fn position_of_name(names: Seq<Option<Seq<char>>>, name: Seq<char>, from: int)
    -> int
    decreases names.len() - from,
{
    if from < 0 || from >= names.len() {
        names.len() as int
    } else if names[from] == Some(name) {
        from
    } else {
        position_of_name(names, name, from + 1)
    }
}

/// The capture group that a reference names: by number where the reference
/// is a number, else the first group of that name. `None` where the match
/// has no such group.
pub open spec fn group_position(
    names: Seq<Option<Seq<char>>>,
    groups: nat,
    reference: Seq<char>,
) -> Option<int> {
    let position = if is_number(reference) {
        number_value(reference) as int
    } else {
        position_of_name(names, reference, 0)
    };
    if position < groups && (is_number(reference) || position < names.len()) {
        Some(position)
    } else {
        None
    }
}

/// The text that stands for a reference: what its group captured, nothing
/// where the group took no part in the match. `None` where the reference
/// dangles.
pub open spec fn group_text(
    names: Seq<Option<Seq<char>>>,
    values: Seq<Option<Seq<char>>>,
    reference: Seq<char>,
) -> Option<Seq<char>> {
    match group_position(names, values.len(), reference) {
        Some(position) => Some(
            match values[position] {
                Some(text) => text,
                None => Seq::empty(),
            },
        ),
        None => None,
    }
}

/// The expansion of the template from position `at` to its end, or the
/// first reference from `at` on that dangles.
pub open spec fn expansion_from(
    template: Seq<char>,
    at: int,
    names: Seq<Option<Seq<char>>>,
    values: Seq<Option<Seq<char>>>,
) -> Result<Seq<char>, Seq<char>>
    decreases template.len() - at,
{
    if at < 0 || at >= template.len() {
        Ok(Seq::empty())
    } else if placeholder_at(template, at) {
        let end = at + 1 + reference_len(template, at + 1);
        let reference = template.subrange(at + 1, end);
        match group_text(names, values, reference) {
            None => Err(reference),
            Some(text) => match expansion_from(template, end + 1, names, values) {
                Ok(rest) => Ok(text + rest),
                Err(dangling) => Err(dangling),
            },
        }
    } else {
        match expansion_from(template, at + 1, names, values) {
            Ok(rest) => Ok(seq![template[at]] + rest),
            Err(dangling) => Err(dangling),
        }
    }
}

/// The template with every placeholder replaced by the text of its group,
/// or the first reference that dangles.
pub open spec fn expansion(
    template: Seq<char>,
    names: Seq<Option<Seq<char>>>,
    values: Seq<Option<Seq<char>>>,
) -> Result<Seq<char>, Seq<char>> {
    expansion_from(template, 0, names, values)
}

/// The capture groups that have a name and took part in the match, each
/// as its name and the text it captured, in the order of the groups.
pub open spec fn named_captures(
    names: Seq<Option<Seq<char>>>,
    values: Seq<Option<Seq<char>>>,
) -> Seq<(Seq<char>, Seq<char>)>
    decreases names.len(),
{
    if names.len() == 0 {
        Seq::empty()
    } else {
        let last = names.len() - 1;
        named_captures(names.drop_last(), values) + if last < values.len() {
            match (names[last], values[last]) {
                (Some(name), Some(text)) => seq![(name, text)],
                _ => Seq::empty(),
            }
        } else {
            Seq::empty()
        }
    }
}

/// The content of each pair of a list.
pub open spec fn pairs_view(pairs: Seq<(String, String)>) -> Seq<(Seq<char>, Seq<char>)> {
    pairs.map_values(|pair: (String, String)| (pair.0@, pair.1@))
}

/// Where no character from `from` on is a closing brace, none is from any
/// later position on.
proof fn lemma_reference_runs_out(s: Seq<char>, from: int, later: int)
    requires
        0 <= from <= later,
        from + reference_len(s, from) >= s.len(),
    ensures
        later + reference_len(s, later) >= s.len(),
    decreases later - from,
{
    if from < later && from < s.len() {
        lemma_reference_runs_out(s, from + 1, later);
    }
}

/// Measures the reference that starts at `from`.
fn measure_reference(s: &Vec<char>, from: usize) -> (len: usize)
    requires
        from <= s.len(),
    ensures
        len == reference_len(s@, from as int),
        from + len <= s.len(),
{
    let mut len: usize = 0;
    while from + len < s.len() && s[from + len] != '}'
        invariant
            from + len <= s.len(),
            reference_len(s@, from as int) == len + reference_len(s@, from + len),
        decreases s.len() - len,
    {
        len = len + 1;
    }
    len
}

/// Tells whether the characters hold a placeholder.
pub fn chars_have_placeholder(s: &Vec<char>) -> (found: bool)
    ensures
        found == has_placeholder(s@),
{
    let mut at: usize = 0;
    while at < s.len()
        invariant
            at <= s.len(),
            forall|before: int| 0 <= before < at ==> !placeholder_at(s@, before),
        decreases s.len() - at,
    {
        if s[at] == '{' {
            let len = measure_reference(s, at + 1);
            if at + 1 + len >= s.len() {
                proof {
                    assert forall|later: int| at <= later implies !placeholder_at(s@, later) by {
                        lemma_reference_runs_out(s@, at + 1, later + 1);
                    }
                }
                return false;
            }
            if len > 0 {
                assert(placeholder_at(s@, at as int));
                return true;
            }
        }
        at = at + 1;
    }
    false
}

/// Tells whether `text` holds a placeholder, and so is a template.
pub fn is_template(text: &str) -> (found: bool)
    ensures
        found == has_placeholder(text@),
{
    let chars = chars_of(text);
    chars_have_placeholder(&chars)
}

/// The value of a decimal digit, `None` for any other character.
fn digit_value(c: char) -> (value: Option<u8>)
    ensures
        value is Some <==> '0' <= c <= '9',
        value matches Some(d) ==> d == c as nat - '0' as nat,
{
    match c {
        '0' => Some(0),
        '1' => Some(1),
        '2' => Some(2),
        '3' => Some(3),
        '4' => Some(4),
        '5' => Some(5),
        '6' => Some(6),
        '7' => Some(7),
        '8' => Some(8),
        '9' => Some(9),
        _ => None,
    }
}

/// A longer run of digits stands for no smaller a number.
proof fn lemma_number_value_grows(digits: Seq<char>, shorter: int)
    requires
        0 <= shorter <= digits.len(),
    ensures
        number_value(digits.take(shorter)) <= number_value(digits),
    decreases digits.len() - shorter,
{
    if shorter < digits.len() {
        lemma_number_value_grows(digits.drop_last(), shorter);
        assert(digits.drop_last().take(shorter) =~= digits.take(shorter));
    } else {
        assert(digits.take(shorter) =~= digits);
    }
}

/// Reads `s[from..to]` as a group number below `groups`. `None` where the
/// characters are not a number or the number is not below `groups`.
fn read_number(s: &Vec<char>, from: usize, to: usize, groups: usize) -> (number: Option<usize>)
    requires
        from <= to <= s.len(),
    ensures
        number is Some <==> is_number(s@.subrange(from as int, to as int)) && number_value(
            s@.subrange(from as int, to as int),
        ) < groups,
        number matches Some(n) ==> n == number_value(s@.subrange(from as int, to as int)),
{
    let ghost reference = s@.subrange(from as int, to as int);
    if from == to {
        return None;
    }
    let mut value: usize = 0;
    let mut i: usize = from;
    while i < to
        invariant
            from <= i <= to <= s.len(),
            reference == s@.subrange(from as int, to as int),
            forall|k: int| 0 <= k < i - from ==> '0' <= #[trigger] reference[k] <= '9',
            value == number_value(reference.take(i - from)),
            value < groups || i == from,
        decreases to - i,
    {
        proof {
            assert(reference.take(i - from + 1).drop_last() =~= reference.take(i - from));
            lemma_number_value_grows(reference, i - from + 1);
        }
        match digit_value(s[i]) {
            None => {
                assert(!('0' <= reference[i - from] <= '9'));
                return None;
            },
            Some(d) => {
                let next: u128 = value as u128 * 10 + d as u128;
                if next >= groups as u128 {
                    return None;
                }
                value = next as usize;
            },
        }
        i = i + 1;
    }
    assert(reference.take(to - from) =~= reference);
    Some(value)
}

/// Finds the first group that bears the name `s[from..to]`.
fn find_name(names: &Vec<Option<String>>, s: &Vec<char>, from: usize, to: usize) -> (position:
    usize)
    requires
        from <= to <= s.len(),
    ensures
        position == position_of_name(
            optional_strings_view(names@),
            s@.subrange(from as int, to as int),
            0,
        ),
        position <= names.len(),
{
    let name = string_of(s, from, to);
    let ghost all = optional_strings_view(names@);
    let mut i: usize = 0;
    while i < names.len()
        invariant
            i <= names.len(),
            all == optional_strings_view(names@),
            name@ == s@.subrange(from as int, to as int),
            position_of_name(all, name@, 0) == position_of_name(all, name@, i as int),
        decreases names.len() - i,
    {
        let same = match &names[i] {
            Some(candidate) => *candidate == name,
            None => false,
        };
        if same {
            return i;
        }
        i = i + 1;
    }
    i
}

/// Finds the capture group that the reference `s[from..to]` names.
fn find_group(
    names: &Vec<Option<String>>,
    groups: usize,
    s: &Vec<char>,
    from: usize,
    to: usize,
) -> (position: Option<usize>)
    requires
        from <= to <= s.len(),
    ensures
        match position {
            Some(p) => group_position(
                optional_strings_view(names@),
                groups as nat,
                s@.subrange(from as int, to as int),
            ) == Some(p as int) && p < groups,
            None => group_position(
                optional_strings_view(names@),
                groups as nat,
                s@.subrange(from as int, to as int),
            ) is None,
        },
{
    match read_number(s, from, to, groups) {
        Some(n) => Some(n),
        None => {
            let mut numeric = from < to;
            let mut i: usize = from;
            let ghost reference = s@.subrange(from as int, to as int);
            while numeric && i < to
                invariant
                    from <= i <= to <= s.len(),
                    reference == s@.subrange(from as int, to as int),
                    numeric ==> forall|k: int|
                        0 <= k < i - from ==> '0' <= #[trigger] reference[k] <= '9',
                    !numeric ==> !is_number(reference),
                    numeric ==> from < to,
                decreases to - i + if numeric { 1int } else { 0int },
            {
                if digit_value(s[i]).is_none() {
                    assert(!('0' <= reference[i - from] <= '9'));
                    numeric = false;
                } else {
                    i = i + 1;
                }
            }
            if numeric {
                None
            } else {
                let position = find_name(names, s, from, to);
                if position < names.len() && position < groups {
                    Some(position)
                } else {
                    None
                }
            }
        },
    }
}

/// Expands a template: replaces every placeholder by the text that its
/// capture group matched. `names` and `values` hold, group by group, the
/// name of the group and what it captured. Fails with the first reference
/// that names no group of the match.
pub fn expand_template(
    template: &str,
    names: &Vec<Option<String>>,
    values: &Vec<Option<String>>,
) -> (result: Result<String, String>)
    ensures
        match result {
            Ok(text) => expansion(
                template@,
                optional_strings_view(names@),
                optional_strings_view(values@),
            ) == Ok::<Seq<char>, Seq<char>>(text@),
            Err(dangling) => expansion(
                template@,
                optional_strings_view(names@),
                optional_strings_view(values@),
            ) == Err::<Seq<char>, Seq<char>>(dangling@),
        },
{
    let s = chars_of(template);
    let ghost all_names = optional_strings_view(names@);
    let ghost all_values = optional_strings_view(values@);
    let mut out = String::new();
    let mut at: usize = 0;
    while at < s.len()
        invariant
            at <= s.len(),
            s@ == template@,
            all_names == optional_strings_view(names@),
            all_values == optional_strings_view(values@),
            expansion(s@, all_names, all_values) == match expansion_from(
                s@,
                at as int,
                all_names,
                all_values,
            ) {
                Ok(rest) => Ok::<Seq<char>, Seq<char>>(out@ + rest),
                Err(dangling) => Err(dangling),
            },
        decreases s.len() - at,
    {
        let ghost before = out@;
        let mut next: usize = at + 1;
        let mut literal = true;
        if s[at] == '{' {
            let len = measure_reference(&s, at + 1);
            if len > 0 && at + 1 + len < s.len() {
                assert(placeholder_at(s@, at as int));
                literal = false;
                let end: usize = at + 1 + len;
                match find_group(names, values.len(), &s, at + 1, end) {
                    None => {
                        return Err(string_of(&s, at + 1, end));
                    },
                    Some(position) => {
                        match &values[position] {
                            Some(text) => {
                                out.append(text.as_str());
                            },
                            None => {
                                assert(out@ =~= before + Seq::<char>::empty());
                            },
                        }
                    },
                }
                next = end + 1;
            }
        }
        if literal {
            assert(!placeholder_at(s@, at as int));
            push_char(&mut out, s[at]);
            assert(out@ =~= before + seq![s@[at as int]]);
        }
        proof {
            match expansion_from(s@, next as int, all_names, all_values) {
                Ok(rest) => {
                    assert(out@ + rest =~= before + ((out@.skip(before.len() as int)) + rest));
                    assert(out@.skip(before.len() as int) + rest =~= expansion_from(
                        s@,
                        at as int,
                        all_names,
                        all_values,
                    )->Ok_0);
                },
                Err(_) => {},
            }
        }
        at = next;
    }
    assert(out@ + Seq::<char>::empty() =~= out@);
    Ok(out)
}

/// Lists the capture groups that have a name and took part in the match,
/// each with the text it captured. `names` and `values` hold, group by
/// group, the name of the group and what it captured.
pub fn pair_named_captures(names: &Vec<Option<String>>, values: &Vec<Option<String>>) -> (pairs:
    Vec<(String, String)>)
    ensures
        pairs_view(pairs@) == named_captures(
            optional_strings_view(names@),
            optional_strings_view(values@),
        ),
{
    let ghost all_names = optional_strings_view(names@);
    let ghost all_values = optional_strings_view(values@);
    let mut pairs: Vec<(String, String)> = Vec::new();
    let mut i: usize = 0;
    assert(all_names.take(0) =~= Seq::empty());
    assert(pairs_view(pairs@) =~= Seq::empty());
    while i < names.len()
        invariant
            i <= names.len(),
            all_names == optional_strings_view(names@),
            all_values == optional_strings_view(values@),
            pairs_view(pairs@) == named_captures(all_names.take(i as int), all_values),
        decreases names.len() - i,
    {
        proof {
            assert(all_names.take(i + 1).drop_last() =~= all_names.take(i as int));
            assert(all_names.take(i + 1)[i as int] == all_names[i as int]);
        }
        if i < values.len() {
            match (&names[i], &values[i]) {
                (Some(name), Some(text)) => {
                    let pair = (name.clone(), text.clone());
                    assert(pairs_view(pairs@.push(pair)) =~= pairs_view(pairs@).push(
                        (name@, text@),
                    ));
                    pairs.push(pair);
                },
                _ => {
                    assert(pairs_view(pairs@) + Seq::empty() =~= pairs_view(pairs@));
                },
            }
        } else {
            assert(pairs_view(pairs@) + Seq::empty() =~= pairs_view(pairs@));
        }
        i = i + 1;
    }
    assert(all_names.take(i as int) =~= all_names);
    pairs
}

} // verus!
