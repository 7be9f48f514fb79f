//! Configuration values from environment variables.

use vstd::hash_map::StringHashMap;
use vstd::prelude::*;

use crate::text;

verus! {

/// Errors that can occur while reading configuration.
#[derive(Debug, Clone, Copy, PartialEq, Eq)]
pub enum ConfigError {
    /// The named variable is set to something that cannot be read.
    Invalid(&'static str),
}

impl ConfigError {
    /// The variable that cannot be read.
    pub open spec fn variable(self) -> Seq<char> {
        match self {
            ConfigError::Invalid(name) => name@,
        }
    }

    /// Describes the error.
    pub fn message(&self) -> (s: String)
        ensures
            s@ == "invalid value for "@ + self.variable(),
    {
        let ConfigError::Invalid(name) = self;
        let mut s = "invalid value for ".to_owned();
        s.append(name);
        s
    }
}

/// A set of environment variables.
pub struct Env {
    vars: StringHashMap<String>,
}

impl View for Env {
    type V = Map<Seq<char>, Seq<char>>;

    closed spec fn view(&self) -> Map<Seq<char>, Seq<char>> {
        self.vars@.map_values(|v: String| v@)
    }
}

/// The value of a variable, or its default if it is not set.
pub open spec fn var_or(
    env: Map<Seq<char>, Seq<char>>,
    key: Seq<char>,
    default: Seq<char>,
) -> Seq<char> {
    if env.contains_key(key) {
        env[key]
    } else {
        default
    }
}

/// The number that a variable, or its default, spells, if it is no larger than
/// `max`.
pub open spec fn number_of(
    env: Map<Seq<char>, Seq<char>>,
    key: Seq<char>,
    default: Seq<char>,
    max: nat,
) -> Option<nat> {
    match text::decimal_of(var_or(env, key, default)) {
        Some(n) => if n <= max {
            Some(n)
        } else {
            None
        },
        None => None,
    }
}

impl Env {
    /// No variables.
    pub fn new() -> (e: Self)
        ensures
            e@ == Map::<Seq<char>, Seq<char>>::empty(),
    {
        let e = Env { vars: StringHashMap::new() };
        assert(e@ =~= Map::<Seq<char>, Seq<char>>::empty());
        e
    }

    /// Sets a variable.
    pub fn set(&mut self, key: &str, value: &str)
        ensures
            final(self)@ == old(self)@.insert(key@, value@),
    {
        self.vars.insert(key.to_owned(), value.to_owned());
        assert(self@ =~= old(self)@.insert(key@, value@));
    }

    /// The value of a variable, or its default if it is not set.
    pub fn or(&self, key: &str, default: &str) -> (value: String)
        ensures
            value@ == var_or(self@, key@, default@),
    {
        match self.vars.get(key) {
            Some(v) => v.clone(),
            None => default.to_owned(),
        }
    }

    /// The number that a variable, or its default, spells.
    pub fn number(&self, key: &'static str, default: &str, max: u64) -> (out: Result<
        u64,
        ConfigError,
    >)
        ensures
            match out {
                Ok(n) => number_of(self@, key@, default@, max as nat) == Some(n as nat),
                Err(e) => number_of(self@, key@, default@, max as nat) is None && e.variable()
                    == key@,
            },
    {
        let value = self.or(key, default);
        let chars = text::chars_of(value.as_str());
        match text::parse_decimal(&chars, max) {
            Some(n) => Ok(n),
            None => Err(ConfigError::Invalid(key)),
        }
    }
}

/// The parts of a comma-separated list, without the white space around them, in
/// lower case, and without the empty ones.
pub open spec fn listed(parts: Seq<Seq<char>>) -> Seq<Seq<char>>
    decreases parts.len(),
{
    if parts.len() == 0 {
        Seq::empty()
    } else {
        let part = text::lowered(text::trimmed(parts.last()));
        let front = listed(parts.drop_last());
        if part.len() == 0 {
            front
        } else {
            front.push(part)
        }
    }
}

/// The contents of a list of texts.
pub open spec fn strings(list: Seq<String>) -> Seq<Seq<char>> {
    Seq::new(list.len(), |i: int| list[i]@)
}

/// Reads a comma-separated list such as `"evil.com, malware.test"`.
pub fn comma_list(value: &str) -> (out: Vec<String>)
    ensures
        strings(out@) == listed(text::split_on(value@, seq![','])),
{
    let comma: [char; 1] = [','];
    let chars = text::chars_of(value);
    assert(comma@ =~= seq![',']);
    let pieces = text::split_chars(&chars, &comma);
    let ghost parts = text::texts(pieces@);
    let n: usize = pieces.len();
    let mut out: Vec<String> = Vec::new();
    let mut i: usize = 0;
    assert(strings(out@) =~= listed(parts.take(0)));
    while i < n
        invariant
            i <= n,
            n == pieces@.len(),
            parts == text::texts(pieces@),
            strings(out@) == listed(parts.take(i as int)),
        decreases n - i,
    {
        let part = text::lower_chars(text::trim_chars(&pieces[i]));
        assert(parts.take(i + 1).drop_last() =~= parts.take(i as int));
        assert(parts.take(i + 1).last() == pieces@[i as int]@);
        if part.len() > 0 {
            let ghost before = out@;
            out.push(text::string_of(&part));
            assert(strings(out@) =~= strings(before).push(part@));
        }
        i += 1;
    }
    assert(parts.take(n as int) =~= parts);
    out
}

/// A variable that is set is taken as it is, and one that is not has its default.
pub proof fn variables_are_taken_as_set(vars: Env, key: &str, default: &str, value: String)
    requires
        call_ensures(Env::or, (&vars, key, default), value),
    ensures
        vars@.contains_key(key@) ==> value@ == vars@[key@],
        !vars@.contains_key(key@) ==> value@ == default@,
{
}

/// A variable that spells a number in range is that number; what spells none, or one
/// that is too large, is an error that names the variable.
pub proof fn numbers_are_read_as_written(
    vars: Env,
    key: &'static str,
    default: &str,
    max: u64,
    n: nat,
    out: Result<u64, ConfigError>,
)
    requires
        call_ensures(Env::number, (&vars, key, default, max), out),
    ensures
        ({
            let value = if vars@.contains_key(key@) {
                vars@[key@]
            } else {
                default@
            };
            &&& value == text::decimal_text(n) && n <= max ==> out is Ok && out->Ok_0 == n
            &&& value == text::decimal_text(n) && n > max ==> out is Err
            &&& value.len() == 0 ==> out is Err
            &&& (exists|i: int|
                0 <= i < value.len() && !('0' <= #[trigger] value[i] <= '9') && !(i == 0
                    && value[i] == '+')) ==> out is Err
            &&& out matches Err(ConfigError::Invalid(name)) ==> name@ == key@
        }),
{
    let value = var_or(vars@, key@, default@);
    text::decimal_round_trips(n);
    text::other_texts_are_no_decimals(value);
}

/// A comma-separated list holds its parts, without the white space around them and in
/// lower case, and nothing else; empty parts are left out.
pub proof fn lists_hold_their_parts(parts: Seq<Seq<char>>, x: Seq<char>)
    ensures
        listed(parts).contains(x) <==> x.len() > 0 && (exists|i: int|
            0 <= i < parts.len() && x == text::lowered(text::trimmed(#[trigger] parts[i]))),
    decreases parts.len(),
{
    if parts.len() > 0 {
        let front = parts.drop_last();
        let part = text::lowered(text::trimmed(parts.last()));
        lists_hold_their_parts(front, x);
        let before = listed(front);
        let all = listed(parts);
        if before.contains(x) {
            let k = choose|k: int| 0 <= k < before.len() && before[k] == x;
            assert(all[k] == x);
            let i = choose|i: int|
                0 <= i < front.len() && x == text::lowered(text::trimmed(#[trigger] front[i]));
            assert(parts[i] == front[i]);
        }
        if all.contains(x) && !before.contains(x) {
            let k = choose|k: int| 0 <= k < all.len() && all[k] == x;
            if k < before.len() {
                assert(before[k] == x);
            }
            assert(x == part);
            assert(parts[parts.len() - 1] == parts.last());
        }
        if x.len() > 0 && exists|i: int|
            0 <= i < parts.len() && x == text::lowered(text::trimmed(#[trigger] parts[i])) {
            let i = choose|i: int|
                0 <= i < parts.len() && x == text::lowered(text::trimmed(#[trigger] parts[i]));
            if i == parts.len() - 1 {
                assert(all[before.len() as int] == x);
            } else {
                assert(front[i] == parts[i]);
            }
        }
    }
}

proof fn lemma_full_lists_keep_their_order(parts: Seq<Seq<char>>)
    ensures
        listed(parts).len() <= parts.len(),
        (forall|i: int|
            0 <= i < parts.len() ==> text::lowered(text::trimmed(#[trigger] parts[i])).len() > 0)
            ==> listed(parts).len() == parts.len() && forall|i: int|
            0 <= i < parts.len() ==> #[trigger] listed(parts)[i] == text::lowered(
                text::trimmed(parts[i]),
            ),
    decreases parts.len(),
{
    if parts.len() > 0 {
        let front = parts.drop_last();
        lemma_full_lists_keep_their_order(front);
        if forall|i: int|
            0 <= i < parts.len() ==> text::lowered(text::trimmed(#[trigger] parts[i])).len() > 0 {
            assert forall|i: int| 0 <= i < front.len() implies text::lowered(
                text::trimmed(#[trigger] front[i]),
            ).len() > 0 by {
                assert(front[i] == parts[i]);
            }
            assert(parts[parts.len() - 1] == parts.last());
            assert forall|i: int| 0 <= i < parts.len() implies #[trigger] listed(parts)[i]
                == text::lowered(text::trimmed(parts[i])) by {
                if i < front.len() {
                    assert(listed(front)[i] == text::lowered(text::trimmed(front[i])));
                }
            }
        }
    }
}

/// A list that is written with commas between its parts is read as those parts: each
/// without the white space around it and in lower case, and none that is empty. Where
/// none is left out, they come in their order.
pub proof fn written_lists_are_read_part_by_part(
    parts: Seq<Seq<char>>,
    value: &str,
    out: Vec<String>,
    x: Seq<char>,
)
    requires
        parts.len() > 0,
        forall|i: int| 0 <= i < parts.len() ==> !(#[trigger] parts[i]).contains(','),
        value@ == text::joined_with(parts, seq![',']),
        call_ensures(comma_list, (value,), out),
    ensures
        (exists|k: int| 0 <= k < out@.len() && (#[trigger] out@[k])@ == x) <==> x.len() > 0 && (
        exists|i: int|
            0 <= i < parts.len() && x == text::lowered(text::trimmed(#[trigger] parts[i]))),
        out@.len() <= parts.len(),
        (forall|i: int|
            0 <= i < parts.len() ==> text::lowered(text::trimmed(#[trigger] parts[i])).len() > 0)
            ==> out@.len() == parts.len() && forall|i: int|
            0 <= i < parts.len() ==> (#[trigger] out@[i])@ == text::lowered(
                text::trimmed(parts[i]),
            ),
{
    assert forall|i: int, j: int|
        0 <= i < parts.len() && 0 <= j < parts[i].len() implies #[trigger] parts[i][j]
        != seq![','][0] by {
        assert(!parts[i].contains(','));
    }
    text::joined_pieces_are_split_again(parts, seq![',']);
    lists_hold_their_parts(parts, x);
    lemma_full_lists_keep_their_order(parts);
    assert(strings(out@) == listed(parts));
    assert forall|k: int| 0 <= k < out@.len() implies (#[trigger] out@[k])@ == listed(parts)[k] by {
        assert(strings(out@)[k] == out@[k]@);
    }
    if listed(parts).contains(x) {
        let k = choose|k: int| 0 <= k < listed(parts).len() && listed(parts)[k] == x;
        assert(strings(out@)[k] == out@[k]@);
        assert(out@[k]@ == x);
    }
}

/// A variable that is set has that value; the others stay as they are.
pub proof fn setting_a_variable_leaves_the_others(
    vars: &mut Env,
    key: &str,
    value: &str,
    other: Seq<char>,
)
    requires
        call_ensures(Env::set, (vars, key, value), ()),
    ensures
        final(vars)@.contains_key(key@) && final(vars)@[key@] == value@,
        other != key@ ==> (final(vars)@.contains_key(other) <==> old(vars)@.contains_key(other)),
        other != key@ && old(vars)@.contains_key(other) ==> final(vars)@[other]
            == old(vars)@[other],
{
}

/// A variable is not set, or is set to the digits of a number that is no larger than
/// `max`.
pub open spec fn unset_or_number(vars: Map<Seq<char>, Seq<char>>, key: Seq<char>, max: nat) -> bool {
    vars.contains_key(key) ==> exists|n: nat| n <= max && vars[key] == #[trigger] text::decimal_text(n)
}

/// A variable that is set to the digits of a number in range can be read, and so can one
/// that is not set, where its default can.
pub proof fn numbers_in_range_can_be_read(
    vars: Map<Seq<char>, Seq<char>>,
    key: Seq<char>,
    default: Seq<char>,
    max: nat,
)
    requires
        unset_or_number(vars, key, max),
        text::decimal_of(default) is Some,
        text::decimal_of(default)->0 <= max,
    ensures
        number_of(vars, key, default, max) is Some,
{
    if vars.contains_key(key) {
        let n = choose|n: nat| n <= max && vars[key] == #[trigger] text::decimal_text(n);
        text::decimal_round_trips(n);
    }
}

} // verus!
