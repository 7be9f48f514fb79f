//! Short tokens of ASCII letters and digits: how they are checked and how random
//! ones are made.

use rand::rngs::ThreadRng;
use vstd::prelude::*;
use vstd::utf8;

use crate::text;

verus! {

/// Minimum length of a token (in characters).
pub const MIN_LEN: usize = 1;

/// Maximum length of a token (in characters).
pub const MAX_LEN: usize = 32;

/// The size of the alphabet of generated tokens.
pub const ALPHABET_LEN: usize = 62;

/// Why a text is no token.
#[derive(Debug, Clone, Copy, PartialEq, Eq, Structural)]
pub enum TokenError {
    Length,
    Charset,
}

/// Only ASCII letters and digits.
pub open spec fn plain(value: Seq<char>) -> bool {
    forall|i: int| 0 <= i < value.len() ==> text::is_alphanumeric(#[trigger] value[i])
}

/// 1 to 32 ASCII letters and digits.
pub open spec fn valid(value: Seq<char>) -> bool {
    MIN_LEN <= value.len() <= MAX_LEN && plain(value)
}

/// The verdict on a text. Its length is measured in bytes.
pub open spec fn check_of(value: Seq<char>) -> Result<(), TokenError> {
    let bytes = utf8::encode_utf8(value).len();
    if bytes < MIN_LEN || bytes > MAX_LEN {
        Err(TokenError::Length)
    } else if !plain(value) {
        Err(TokenError::Charset)
    } else {
        Ok(())
    }
}

/// Checks a text: its length first, then its characters.
pub fn check(value: &str) -> (out: Result<(), TokenError>)
    ensures
        out == check_of(value@),
        out is Ok <==> valid(value@),
{
    proof {
        accepted_iff_valid(value@);
    }
    let bytes: usize = value.as_bytes().len();
    if bytes < MIN_LEN || bytes > MAX_LEN {
        return Err(TokenError::Length);
    }
    let chars = text::chars_of(value);
    let n: usize = chars.len();
    let mut i: usize = 0;
    while i < n
        invariant
            i <= n,
            n == chars@.len(),
            chars@ == value@,
            forall|j: int| 0 <= j < i ==> text::is_alphanumeric(#[trigger] value@[j]),
            MIN_LEN <= utf8::encode_utf8(value@).len() <= MAX_LEN,
        decreases n - i,
    {
        if !text::alphanumeric(chars[i]) {
            assert(!text::is_alphanumeric(value@[i as int]));
            return Err(TokenError::Charset);
        }
        i += 1;
    }
    Ok(())
}

/// Exactly the valid tokens pass the check: for them, bytes and characters are the
/// same number.
pub proof fn accepted_iff_valid(value: Seq<char>)
    ensures
        check_of(value) is Ok <==> valid(value),
{
    if plain(value) {
        assert(utf8::is_ascii_chars(value)) by {
            assert forall|i: int| 0 <= i < value.len() implies ('\0' <= #[trigger] value[i]
                <= '\u{7f}') by {
                assert(text::is_alphanumeric(value[i]));
            }
        }
        utf8::is_ascii_chars_encode_utf8(value);
    }
}

/// The character of a base 62 digit: letters in both cases, then digits.
pub open spec fn base62(d: usize) -> char
    recommends
        d < ALPHABET_LEN,
{
    if d < 26 {
        ('A' as u8 + d) as u8 as char
    } else if d < 52 {
        ('a' as u8 + (d - 26)) as u8 as char
    } else {
        ('0' as u8 + (d - 52)) as u8 as char
    }
}

/// The text that a sequence of base 62 digits spells.
pub open spec fn spelled(draws: Seq<usize>) -> Seq<char> {
    Seq::new(draws.len(), |i: int| base62(draws[i]))
}

/// Every number is a base 62 digit.
pub open spec fn digits(draws: Seq<usize>) -> bool {
    forall|i: int| 0 <= i < draws.len() ==> #[trigger] draws[i] < ALPHABET_LEN
}

fn base62_char(d: usize) -> (c: char)
    requires
        d < ALPHABET_LEN,
    ensures
        c == base62(d),
{
    assert('A' as u8 == 65 && 'a' as u8 == 97 && '0' as u8 == 48);
    if d < 26 {
        (65 + d as u8) as char
    } else if d < 52 {
        (97 + (d as u8 - 26)) as char
    } else {
        (48 + (d as u8 - 52)) as char
    }
}

/// Spells a sequence of base 62 digits.
pub fn spell(draws: &[usize]) -> (out: String)
    requires
        digits(draws@),
    ensures
        out@ == spelled(draws@),
        plain(out@),
{
    let n: usize = draws.len();
    let mut chars: Vec<char> = Vec::new();
    let mut i: usize = 0;
    while i < n
        invariant
            i <= n,
            n == draws@.len(),
            digits(draws@),
            chars@ == spelled(draws@).take(i as int),
        decreases n - i,
    {
        chars.push(base62_char(draws[i]));
        i += 1;
        assert(chars@ =~= spelled(draws@).take(i as int));
    }
    assert(chars@ =~= spelled(draws@));
    proof {
        spelled_is_plain(draws@);
    }
    text::string_of(&chars)
}

/// Whatever is drawn, it spells letters and digits only.
pub proof fn spelled_is_plain(draws: Seq<usize>)
    requires
        digits(draws),
    ensures
        plain(spelled(draws)),
{
    assert forall|i: int| 0 <= i < spelled(draws).len() implies text::is_alphanumeric(
        #[trigger] spelled(draws)[i],
    ) by {
        let d = draws[i];
        assert('A' as u8 == 65 && 'a' as u8 == 97 && '0' as u8 == 48);
        assert(d < ALPHABET_LEN);
    }
}

proof fn lemma_base62_code(d: usize)
    requires
        d < ALPHABET_LEN,
    ensures
        base62(d) as int == if d < 26 {
            65 + d
        } else if d < 52 {
            71 + d
        } else {
            d - 4
        },
{
    assert('A' as u8 == 65 && 'a' as u8 == 97 && '0' as u8 == 48);
}

/// Different draws spell different tokens.
pub proof fn spelling_is_injective(a: Seq<usize>, b: Seq<usize>)
    requires
        digits(a),
        digits(b),
        spelled(a) == spelled(b),
    ensures
        a == b,
{
    assert(a.len() == spelled(a).len() == b.len());
    assert forall|i: int| 0 <= i < a.len() implies a[i] == b[i] by {
        assert(spelled(a)[i] == base62(a[i]));
        assert(spelled(b)[i] == base62(b[i]));
        lemma_base62_code(a[i]);
        lemma_base62_code(b[i]);
    }
    assert(a =~= b);
}

/// The handle of the random number generator of a thread.
#[verifier::external_type_specification]
#[verifier::external_body]
pub struct ExThreadRng(ThreadRng);

/// `rand::thread_rng` hands out the generator of this thread, seeded by the
/// system; it panics where the system has no randomness to give. Nothing is claimed
/// of what the generator will draw.
pub assume_specification[ rand::thread_rng ]() -> ThreadRng;

/// Calls `rand::Rng::gen_range` on the range from 0 up to, not including, `bound`.
/// The number drawn lies in that range; an empty range would panic.
#[verifier::external_body]
fn draw(rng: &mut ThreadRng, bound: usize) -> (r: usize)
    requires
        bound > 0,
    ensures
        r < bound,
{
    rand::Rng::gen_range(rng, 0..bound)
}

/// Whether the generator of some thread may draw this digit.
pub closed spec fn drawn(d: usize) -> bool {
    exists|rng: &mut ThreadRng| #[trigger] call_ensures(draw, (rng, ALPHABET_LEN), d)
}

/// Draws one digit, and hands the generator back as the draw has left it.
fn draw_from(rng: ThreadRng) -> (out: (ThreadRng, usize))
    ensures
        out.1 < ALPHABET_LEN,
        drawn(out.1),
{
    let mut rng = rng;
    let d: usize = draw(&mut rng, ALPHABET_LEN);
    (rng, d)
}

/// Whether one draw from a generator may give this digit and leave the generator like
/// that.
pub closed spec fn drawn_between(before: ThreadRng, after: ThreadRng, d: usize) -> bool {
    call_ensures(draw_from, (before,), (after, d))
}

/// The digits were drawn one after the other, each by a draw of its own, which starts
/// from the generator as the one before it has left it.
pub open spec fn drawn_in_turn(states: Seq<ThreadRng>, draws: Seq<usize>) -> bool {
    &&& states.len() == draws.len() + 1
    &&& forall|i: int|
        0 <= i < draws.len() ==> drawn_between(states[i], states[i + 1], #[trigger] draws[i])
}

/// Every number is a digit that was drawn.
pub open spec fn all_drawn(draws: Seq<usize>) -> bool {
    forall|i: int| 0 <= i < draws.len() ==> drawn(#[trigger] draws[i])
}

/// Whether a text spells so many digits that were drawn one after the other.
pub open spec fn random(text: Seq<char>, len: nat) -> bool {
    exists|states: Seq<ThreadRng>, draws: Seq<usize>|
        {
            &&& #[trigger] drawn_in_turn(states, draws)
            &&& draws.len() == len
            &&& digits(draws)
            &&& all_drawn(draws)
            &&& text == spelled(draws)
        }
}

/// Whether a text spells so many digits that were drawn one after the other, from this
/// generator on, which is left like that.
pub open spec fn random_between(
    before: ThreadRng,
    after: ThreadRng,
    text: Seq<char>,
    len: nat,
) -> bool {
    exists|states: Seq<ThreadRng>, draws: Seq<usize>|
        {
            &&& #[trigger] drawn_in_turn(states, draws)
            &&& states[0] == before
            &&& states.last() == after
            &&& draws.len() == len
            &&& digits(draws)
            &&& all_drawn(draws)
            &&& text == spelled(draws)
        }
}

/// Whether texts of so many characters were drawn one after the other: the generator is
/// handed out, and each text starts from it as the one before has left it.
pub open spec fn random_in_turn(rngs: Seq<ThreadRng>, texts: Seq<Seq<char>>, len: nat) -> bool {
    &&& rngs.len() == texts.len() + 1
    &&& call_ensures(rand::thread_rng, (), rngs[0])
    &&& forall|i: int|
        0 <= i < texts.len() ==> random_between(rngs[i], rngs[i + 1], #[trigger] texts[i], len)
}

/// A random token of the given length, drawn from a generator, which is handed back: the
/// spelling of so many random digits, each of them drawn for itself.
pub fn generate_from(rng: ThreadRng, len: usize) -> (out: (ThreadRng, String))
    ensures
        random_between(rng, out.0, out.1@, len as nat),
        random(out.1@, len as nat),
        out.1@.len() == len,
        plain(out.1@),
{
    let ghost start = rng;
    let mut rng = rng;
    let mut draws: Vec<usize> = Vec::new();
    let ghost mut states: Seq<ThreadRng> = seq![rng];
    let mut i: usize = 0;
    while i < len
        invariant
            i <= len,
            draws@.len() == i,
            digits(draws@),
            all_drawn(draws@),
            drawn_in_turn(states, draws@),
            states[0] == start,
            states.last() == rng,
        decreases len - i,
    {
        let ghost before = draws@;
        let (next, d) = draw_from(rng);
        rng = next;
        draws.push(d);
        proof {
            let more = states.push(rng);
            assert forall|k: int| 0 <= k < draws@.len() implies drawn_between(
                more[k],
                more[k + 1],
                #[trigger] draws@[k],
            ) by {
                if k < before.len() {
                    assert(drawn_between(states[k], states[k + 1], before[k]));
                }
            }
            states = more;
        }
        i += 1;
    }
    let out = spell(&draws);
    assert(drawn_in_turn(states, draws@));
    (rng, out)
}

/// A random token of the given length: the spelling of so many random digits, each of
/// them drawn for itself.
pub fn generate(len: usize) -> (out: String)
    ensures
        random(out@, len as nat),
        exists|rngs: Seq<ThreadRng>| #[trigger] random_in_turn(rngs, seq![out@], len as nat),
        out@.len() == len,
        plain(out@),
{
    let rng = rand::thread_rng();
    let ghost before = rng;
    let (after, out) = generate_from(rng, len);
    assert(random_in_turn(seq![before, after], seq![out@], len as nat));
    out
}

/// So many random tokens of the given length, drawn one after the other.
pub fn generate_many(count: usize, len: usize) -> (out: Vec<String>)
    ensures
        out@.len() == count,
        exists|rngs: Seq<ThreadRng>| #[trigger]
            random_in_turn(rngs, texts_of(out@), len as nat),
        forall|i: int|
            0 <= i < out@.len() ==> random((#[trigger] out@[i])@, len as nat) && out@[i]@.len()
                == len && plain(out@[i]@),
{
    let mut rng = rand::thread_rng();
    let ghost mut rngs: Seq<ThreadRng> = seq![rng];
    let mut out: Vec<String> = Vec::new();
    let mut i: usize = 0;
    while i < count
        invariant
            i <= count,
            out@.len() == i,
            random_in_turn(rngs, texts_of(out@), len as nat),
            rngs.last() == rng,
            forall|k: int|
                0 <= k < out@.len() ==> random((#[trigger] out@[k])@, len as nat)
                    && out@[k]@.len() == len && plain(out@[k]@),
        decreases count - i,
    {
        let ghost before = texts_of(out@);
        let (next, t) = generate_from(rng, len);
        rng = next;
        out.push(t);
        proof {
            let more = rngs.push(rng);
            let texts = texts_of(out@);
            assert forall|k: int| 0 <= k < texts.len() implies random_between(
                more[k],
                more[k + 1],
                #[trigger] texts[k],
                len as nat,
            ) by {
                if k < before.len() {
                    assert(texts[k] == before[k]);
                    assert(random_between(rngs[k], rngs[k + 1], before[k], len as nat));
                }
            }
            rngs = more;
        }
        i += 1;
    }
    out
}

/// The contents of a list of texts.
pub open spec fn texts_of(list: Seq<String>) -> Seq<Seq<char>> {
    Seq::new(list.len(), |i: int| list[i]@)
}

/// The characters that stand for the digits are the letters in upper case, the letters
/// in lower case and the decimal digits, in that order.
pub proof fn spelling_uses_the_alphabet(draws: Seq<usize>, i: int)
    requires
        digits(draws),
        0 <= i < draws.len(),
    ensures
        spelled(draws).len() == draws.len(),
        spelled(draws)[i]
            == "ABCDEFGHIJKLMNOPQRSTUVWXYZabcdefghijklmnopqrstuvwxyz0123456789"@[draws[i] as int],
{
    reveal_strlit("ABCDEFGHIJKLMNOPQRSTUVWXYZabcdefghijklmnopqrstuvwxyz0123456789");
    let d = draws[i];
    assert(d < ALPHABET_LEN);
    lemma_base62_code(d);
}

/// A random token of `len` characters is the spelling of `len` draws, one for each
/// character: the draw for each character starts from the generator as the draw for
/// the one before it has left it, so that no draw is used for two of them.
pub proof fn random_tokens_take_one_draw_per_character(len: usize, out: String)
    requires
        call_ensures(generate, (len,), out),
    ensures
        out@.len() == len,
        exists|states: Seq<ThreadRng>, draws: Seq<usize>|
            {
                &&& states.len() == len + 1
                &&& draws.len() == len
                &&& #[trigger] drawn_in_turn(states, draws)
                &&& forall|i: int|
                    0 <= i < len ==> {
                        &&& drawn_between(states[i], states[i + 1], draws[i])
                        &&& draws[i] < 62
                        &&& #[trigger] out@[i]
                            == "ABCDEFGHIJKLMNOPQRSTUVWXYZabcdefghijklmnopqrstuvwxyz0123456789"@[draws[i] as int]
                    }
            },
{
    random_text_takes_one_draw_per_character(out@, len as nat);
}

/// Texts that are drawn one after the other each take draws of their own: the draws for
/// one start from the generator as those for the one before it have left it.
pub proof fn texts_in_turn_take_draws_of_their_own(
    rngs: Seq<ThreadRng>,
    texts: Seq<Seq<char>>,
    len: nat,
    k: int,
)
    requires
        random_in_turn(rngs, texts, len),
        0 <= k < texts.len(),
    ensures
        texts[k].len() == len,
        exists|states: Seq<ThreadRng>, draws: Seq<usize>|
            {
                &&& states.len() == len + 1
                &&& draws.len() == len
                &&& states[0] == rngs[k]
                &&& states[len as int] == rngs[k + 1]
                &&& #[trigger] drawn_in_turn(states, draws)
                &&& forall|i: int|
                    0 <= i < len ==> {
                        &&& drawn_between(states[i], states[i + 1], draws[i])
                        &&& draws[i] < 62
                        &&& #[trigger] texts[k][i]
                            == "ABCDEFGHIJKLMNOPQRSTUVWXYZabcdefghijklmnopqrstuvwxyz0123456789"@[draws[i] as int]
                    }
            },
{
    assert(random_between(rngs[k], rngs[k + 1], texts[k], len));
    let (states, draws) = choose|states: Seq<ThreadRng>, draws: Seq<usize>|
        {
            &&& #[trigger] drawn_in_turn(states, draws)
            &&& states[0] == rngs[k]
            &&& states.last() == rngs[k + 1]
            &&& draws.len() == len
            &&& digits(draws)
            &&& all_drawn(draws)
            &&& texts[k] == spelled(draws)
        };
    assert forall|i: int| 0 <= i < len implies {
        &&& drawn_between(states[i], states[i + 1], draws[i])
        &&& draws[i] < 62
        &&& #[trigger] texts[k][i]
            == "ABCDEFGHIJKLMNOPQRSTUVWXYZabcdefghijklmnopqrstuvwxyz0123456789"@[draws[i] as int]
    } by {
        spelling_uses_the_alphabet(draws, i);
    }
    assert(drawn_in_turn(states, draws));
}

/// A random text of `len` characters is the spelling of `len` draws, one for each
/// character, made one after the other.
pub proof fn random_text_takes_one_draw_per_character(text: Seq<char>, len: nat)
    requires
        random(text, len),
    ensures
        text.len() == len,
        exists|states: Seq<ThreadRng>, draws: Seq<usize>|
            {
                &&& states.len() == len + 1
                &&& draws.len() == len
                &&& #[trigger] drawn_in_turn(states, draws)
                &&& forall|i: int|
                    0 <= i < len ==> {
                        &&& drawn_between(states[i], states[i + 1], draws[i])
                        &&& draws[i] < 62
                        &&& #[trigger] text[i]
                            == "ABCDEFGHIJKLMNOPQRSTUVWXYZabcdefghijklmnopqrstuvwxyz0123456789"@[draws[i] as int]
                    }
            },
{
    let (states, draws) = choose|states: Seq<ThreadRng>, draws: Seq<usize>|
        {
            &&& #[trigger] drawn_in_turn(states, draws)
            &&& draws.len() == len
            &&& digits(draws)
            &&& all_drawn(draws)
            &&& text == spelled(draws)
        };
    assert forall|i: int| 0 <= i < len implies {
        &&& drawn_between(states[i], states[i + 1], draws[i])
        &&& draws[i] < 62
        &&& #[trigger] text[i]
            == "ABCDEFGHIJKLMNOPQRSTUVWXYZabcdefghijklmnopqrstuvwxyz0123456789"@[draws[i] as int]
    } by {
        spelling_uses_the_alphabet(draws, i);
    }
    assert(drawn_in_turn(states, draws));
}

/// The valid texts are those of 1 to 32 letters and digits of ASCII.
pub proof fn valid_means_letters_and_digits(value: Seq<char>)
    ensures
        valid(value) <==> 1 <= value.len() <= 32 && (forall|i: int|
            0 <= i < value.len() ==> {
                ||| 'A' <= #[trigger] value[i] <= 'Z'
                ||| 'a' <= value[i] <= 'z'
                ||| '0' <= value[i] <= '9'
            }),
        valid(value) ==> utf8::encode_utf8(value).len() == value.len(),
{
    if valid(value) {
        assert forall|i: int| 0 <= i < value.len() implies ('A' <= #[trigger] value[i] <= 'Z'
            || 'a' <= value[i] <= 'z' || '0' <= value[i] <= '9') by {
            assert(text::is_alphanumeric(value[i]));
        }
        assert(utf8::is_ascii_chars(value)) by {
            assert forall|i: int| 0 <= i < value.len() implies ('\0' <= #[trigger] value[i]
                <= '\u{7f}') by {
                assert(text::is_alphanumeric(value[i]));
            }
        }
        utf8::is_ascii_chars_encode_utf8(value);
    }
    if 1 <= value.len() <= 32 && (forall|i: int|
            0 <= i < value.len() ==> {
                ||| 'A' <= #[trigger] value[i] <= 'Z'
                ||| 'a' <= value[i] <= 'z'
                ||| '0' <= value[i] <= '9'
            }) {
        assert forall|i: int| 0 <= i < value.len() implies text::is_alphanumeric(
            #[trigger] value[i],
        ) by {
            assert('A' <= value[i] <= 'Z' || 'a' <= value[i] <= 'z' || '0' <= value[i] <= '9');
        }
    }
}

} // verus!
