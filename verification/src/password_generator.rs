//! Random passwords over fixed alphabets.

use crate::entropy::random_below;
use vstd::prelude::*;

verus! {

/// The shortest password that `generate` makes.
pub const MIN_PASSWORD_LEN: usize = 4;

/// Appends one character by `String::push`.
pub assume_specification[ String::push ](s: &mut String, ch: char)
    ensures
        final(s)@ == old(s)@.push(ch),
;

/// Why no password was generated.
#[derive(Clone, Copy, Debug, PartialEq, Eq, Structural)]
pub enum GeneratorError {
    /// Fewer than `MIN_PASSWORD_LEN` characters were asked for.
    LengthTooShort,
}

impl GeneratorError {
    /// A human-readable description.
    pub fn message(&self) -> (text: String)
        ensures
            text@ == "Password length must be at least 4 characters"@,
    {
        "Password length must be at least 4 characters".to_owned()
    }
}

/// The lowercase letters.
pub open spec fn spec_lowercase() -> Seq<char> {
    "abcdefghijklmnopqrstuvwxyz"@
}

/// The uppercase letters.
pub open spec fn spec_uppercase() -> Seq<char> {
    "ABCDEFGHIJKLMNOPQRSTUVWXYZ"@
}

/// The decimal digits.
pub open spec fn spec_numbers() -> Seq<char> {
    "0123456789"@
}

/// The punctuation characters a password may hold.
pub open spec fn spec_symbols() -> Seq<char> {
    "!@#$%^&*()-_=+[]{}|;:,.<>?"@
}

/// All characters a generated password is drawn from.
pub open spec fn spec_charset(include_symbols: bool) -> Seq<char> {
    if include_symbols {
        spec_lowercase() + spec_uppercase() + spec_numbers() + spec_symbols()
    } else {
        spec_lowercase() + spec_uppercase() + spec_numbers()
    }
}

/// Some character of `text` belongs to `alphabet`.
pub open spec fn spec_has_char_of(text: Seq<char>, alphabet: Seq<char>) -> bool {
    exists|i: int| 0 <= i < text.len() && alphabet.contains(#[trigger] text[i])
}

/// Every character of `text` belongs to `alphabet`.
pub open spec fn spec_all_chars_of(text: Seq<char>, alphabet: Seq<char>) -> bool {
    forall|i: int| 0 <= i < text.len() ==> alphabet.contains(#[trigger] text[i])
}

/// What every password generated for `length` and `include_symbols` is
/// like: it has the length asked for, is drawn from the character set, and
/// holds a character of each class in use.
pub open spec fn spec_is_generated(password: Seq<char>, length: nat, include_symbols: bool) -> bool {
    &&& password.len() == length
    &&& spec_all_chars_of(password, spec_charset(include_symbols))
    &&& spec_has_char_of(password, spec_lowercase())
    &&& spec_has_char_of(password, spec_uppercase())
    &&& spec_has_char_of(password, spec_numbers())
    &&& include_symbols ==> spec_has_char_of(password, spec_symbols())
}

/// A character of `text` stays one after another character is appended.
proof fn lemma_push_keeps_char_of(text: Seq<char>, c: char, alphabet: Seq<char>)
    requires
        spec_has_char_of(text, alphabet),
    ensures
        spec_has_char_of(text.push(c), alphabet),
{
    let w = choose|i: int| 0 <= i < text.len() && alphabet.contains(#[trigger] text[i]);
    assert(text.push(c)[w] == text[w]);
}

/// Exchanging two characters of `text` keeps a character of `alphabet` in it.
proof fn lemma_swap_keeps_char_of(text: Seq<char>, i: int, j: int, alphabet: Seq<char>)
    requires
        0 <= i < text.len(),
        0 <= j < text.len(),
        spec_has_char_of(text, alphabet),
    ensures
        spec_has_char_of(text.update(i, text[j]).update(j, text[i]), alphabet),
{
    let swapped = text.update(i, text[j]).update(j, text[i]);
    let w = choose|k: int| 0 <= k < text.len() && alphabet.contains(#[trigger] text[k]);
    let moved = if w == i {
        j
    } else if w == j {
        i
    } else {
        w
    };
    assert(swapped[moved] == text[w]);
}

/// The text after the characters at `i` and `j` changed places.
pub open spec fn spec_exchange(text: Seq<char>, i: int, j: int) -> Seq<char> {
    text.update(i, text[j]).update(j, text[i])
}

/// `picks` names, for every position of a text of `len` characters but
/// the first, a position at or below it.
pub open spec fn spec_are_picks(picks: Seq<int>, len: nat) -> bool {
    &&& picks.len() == len
    &&& forall|k: int| 1 <= k < len ==> 0 <= #[trigger] picks[k] <= k
}

/// The text after one pass from the last position down to `from`, in
/// which the character at each position changed places with the one at
/// the position that `picks` names for it.
pub open spec fn spec_pass(text: Seq<char>, picks: Seq<int>, from: int) -> Seq<char>
    decreases text.len() - from,
{
    if from >= text.len() {
        text
    } else {
        spec_exchange(spec_pass(text, picks, from + 1), from, picks[from])
    }
}

/// A pass down to `from` depends on the picks for the positions from
/// `from` up only.
proof fn lemma_pass_reads_later_picks(text: Seq<char>, a: Seq<int>, b: Seq<int>, from: int)
    requires
        forall|k: int| from <= k < text.len() ==> a[k] == b[k],
    ensures
        spec_pass(text, a, from) == spec_pass(text, b, from),
    decreases text.len() - from,
{
    if from < text.len() {
        lemma_pass_reads_later_picks(text, a, b, from + 1);
    }
}

/// Letting two characters change places keeps the characters of the text,
/// each as often as it was there.
proof fn lemma_exchange_keeps_characters(text: Seq<char>, i: int, j: int)
    requires
        0 <= i < text.len(),
        0 <= j < text.len(),
    ensures
        spec_exchange(text, i, j).to_multiset() == text.to_multiset(),
{
    broadcast use vstd::multiset::group_multiset_axioms;

    if i == j {
        assert(spec_exchange(text, i, j) =~= text);
    } else {
        let first = text.update(i, text[j]);
        let second = first.update(j, text[i]);
        assert(first =~= text.remove(i).insert(i, text[j]));
        assert(second =~= first.remove(j).insert(j, text[i]));
        vstd::seq_lib::to_multiset_remove(text, i);
        vstd::seq_lib::to_multiset_insert(text.remove(i), i, text[j]);
        vstd::seq_lib::to_multiset_remove(first, j);
        vstd::seq_lib::to_multiset_insert(first.remove(j), j, text[i]);
        text.to_multiset_ensures();
        first.to_multiset_ensures();
        assert(text.contains(text[i]));
        assert(first[j] == text[j]);
        assert(first.contains(text[j]));
        let all = text.to_multiset();
        assert(first.to_multiset() == all.remove(text[i]).insert(text[j]));
        assert(second.to_multiset() == first.to_multiset().remove(text[j]).insert(text[i]));
        assert forall|c: char| second.to_multiset().count(c) == all.count(c) by {
            assert(all.count(text[i]) > 0);
            assert(first.to_multiset().count(text[j]) > 0);
        }
        assert(second.to_multiset() =~= all);
    }
}

/// Generates passwords from four character classes.
pub struct PasswordGenerator {
    lowercase: &'static str,
    uppercase: &'static str,
    numbers: &'static str,
    symbols: &'static str,
}

impl PasswordGenerator {
    #[verifier::type_invariant]
    spec fn holds_alphabets(self) -> bool {
        &&& self.lowercase@ == spec_lowercase()
        &&& self.uppercase@ == spec_uppercase()
        &&& self.numbers@ == spec_numbers()
        &&& self.symbols@ == spec_symbols()
    }

    /// The characters that the generator draws from: with symbols or
    /// without.
    pub closed spec fn charset(&self, include_symbols: bool) -> Seq<char> {
        if include_symbols {
            self.lowercase@ + self.uppercase@ + self.numbers@ + self.symbols@
        } else {
            self.lowercase@ + self.uppercase@ + self.numbers@
        }
    }

    /// A generator over the built-in alphabets.
    pub fn new() -> (generator: Self)
        ensures
            forall|include_symbols: bool|
                #[trigger] generator.charset(include_symbols) == spec_charset(include_symbols),
    {
        Self {
            lowercase: "abcdefghijklmnopqrstuvwxyz",
            uppercase: "ABCDEFGHIJKLMNOPQRSTUVWXYZ",
            numbers: "0123456789",
            symbols: "!@#$%^&*()-_=+[]{}|;:,.<>?",
        }
    }

    /// A random character of a non-empty alphabet.
    fn pick(alphabet: &str) -> (c: char)
        requires
            alphabet@.len() > 0,
        ensures
            alphabet@.contains(c),
    {
        let n = alphabet.unicode_len();
        alphabet.get_char(random_below(n))
    }

    /// Appends the characters of `alphabet` to `charset`.
    fn extend(charset: &mut Vec<char>, alphabet: &str)
        ensures
            final(charset)@ == old(charset)@ + alphabet@,
    {
        let n = alphabet.unicode_len();
        let mut i: usize = 0;
        while i < n
            invariant
                n == alphabet@.len(),
                i <= n,
                charset@ == old(charset)@ + alphabet@.take(i as int),
            decreases n - i,
        {
            charset.push(alphabet.get_char(i));
            assert(alphabet@.take(i + 1) =~= alphabet@.take(i as int).push(alphabet@[i as int]));
            i = i + 1;
        }
        assert(alphabet@.take(n as int) =~= alphabet@);
    }

    /// Puts the characters of `password` into random order: in one pass
    /// from the last position down to the second, the character at each
    /// position changes places with the one at a random position at or
    /// below it. The characters stay the same, each as often as it was
    /// there, and so the password stays one that was generated.
    fn shuffle(password: &mut Vec<char>, Ghost(include_symbols): Ghost<bool>)
        requires
            spec_is_generated(old(password)@, old(password)@.len(), include_symbols),
        ensures
            exists|picks: Seq<int>|
                spec_are_picks(picks, old(password)@.len()) && final(password)@ == #[trigger] spec_pass(
                    old(password)@,
                    picks,
                    1,
                ),
            final(password)@.to_multiset() == old(password)@.to_multiset(),
            spec_is_generated(final(password)@, old(password)@.len(), include_symbols),
    {
        let ghost start = password@;
        let ghost mut picks: Seq<int> = Seq::new(start.len(), |k: int| 0int);
        let mut i: usize = password.len();
        while i > 1
            invariant
                i <= password@.len(),
                i >= 1 || start.len() == 0,
                start == old(password)@,
                password@.len() == start.len(),
                spec_are_picks(picks, start.len()),
                password@ == spec_pass(start, picks, i as int),
                password@.to_multiset() == start.to_multiset(),
                spec_is_generated(password@, password@.len(), include_symbols),
            decreases i,
        {
            i = i - 1;
            let j = random_below(i + 1);
            let ghost before = password@;
            let a = password[i];
            let b = password[j];
            password[i] = b;
            password[j] = a;
            proof {
                let chosen = picks.update(i as int, j as int);
                lemma_pass_reads_later_picks(start, picks, chosen, i + 1);
                picks = chosen;
                assert(password@ =~= spec_exchange(before, i as int, j as int));
                lemma_exchange_keeps_characters(before, i as int, j as int);
                lemma_swap_keeps_char_of(before, i as int, j as int, spec_lowercase());
                lemma_swap_keeps_char_of(before, i as int, j as int, spec_uppercase());
                lemma_swap_keeps_char_of(before, i as int, j as int, spec_numbers());
                if include_symbols {
                    lemma_swap_keeps_char_of(before, i as int, j as int, spec_symbols());
                }
                assert forall|k: int| 0 <= k < password@.len() implies spec_charset(
                    include_symbols,
                ).contains(#[trigger] password@[k]) by {
                    let from = if k == i {
                        j as int
                    } else if k == j {
                        i as int
                    } else {
                        k
                    };
                    assert(password@[k] == before[from]);
                }
            }
        }
        proof {
            if i == 0 {
                assert(spec_pass(start, picks, 0) == start);
                assert(spec_pass(start, picks, 1) == start);
            }
        }
    }

    /// Generates a password of `length` characters: one lowercase letter,
    /// one uppercase letter, one digit and, with `include_symbols`, one
    /// symbol, the rest drawn from all classes in use, in random order.
    /// A length under `MIN_PASSWORD_LEN` is rejected.
    pub fn generate(&self, length: usize, include_symbols: bool) -> (r: Result<
        String,
        GeneratorError,
    >)
        ensures
            length < MIN_PASSWORD_LEN <==> r is Err,
            r matches Ok(password) ==> spec_is_generated(
                password@,
                length as nat,
                include_symbols,
            ),
    {
        if length < MIN_PASSWORD_LEN {
            return Err(GeneratorError::LengthTooShort);
        }
        proof {
            use_type_invariant(self);
            reveal_strlit("abcdefghijklmnopqrstuvwxyz");
            reveal_strlit("ABCDEFGHIJKLMNOPQRSTUVWXYZ");
            reveal_strlit("0123456789");
            reveal_strlit("!@#$%^&*()-_=+[]{}|;:,.<>?");
        }
        let ghost all = spec_charset(include_symbols);
        let mut charset: Vec<char> = Vec::new();
        Self::extend(&mut charset, self.lowercase);
        Self::extend(&mut charset, self.uppercase);
        Self::extend(&mut charset, self.numbers);
        if include_symbols {
            Self::extend(&mut charset, self.symbols);
        }
        assert(charset@ =~= all);

        let mut password: Vec<char> = Vec::new();
        let lower = Self::pick(self.lowercase);
        let upper = Self::pick(self.uppercase);
        let digit = Self::pick(self.numbers);
        password.push(lower);
        password.push(upper);
        password.push(digit);
        proof {
            assert(password@[0] == lower && password@[1] == upper && password@[2] == digit);
            lemma_member_of_charset(lower, include_symbols);
            lemma_member_of_charset(upper, include_symbols);
            lemma_member_of_charset(digit, include_symbols);
        }
        if include_symbols {
            let symbol = Self::pick(self.symbols);
            let ghost before = password@;
            password.push(symbol);
            proof {
                assert(password@[3] == symbol);
                lemma_member_of_charset(symbol, include_symbols);
                lemma_push_keeps_char_of(before, symbol, spec_lowercase());
                lemma_push_keeps_char_of(before, symbol, spec_uppercase());
                lemma_push_keeps_char_of(before, symbol, spec_numbers());
            }
        }
        while password.len() < length
            invariant
                password@.len() <= length,
                charset@ == all,
                all == spec_charset(include_symbols),
                all.len() > 0,
                spec_is_generated(password@, password@.len(), include_symbols),
            decreases length - password@.len(),
        {
            let c = charset[random_below(charset.len())];
            let ghost before = password@;
            password.push(c);
            proof {
                lemma_push_keeps_char_of(before, c, spec_lowercase());
                lemma_push_keeps_char_of(before, c, spec_uppercase());
                lemma_push_keeps_char_of(before, c, spec_numbers());
                if include_symbols {
                    lemma_push_keeps_char_of(before, c, spec_symbols());
                }
            }
        }
        Self::shuffle(&mut password, Ghost(include_symbols));

        let mut text = String::new();
        let mut i: usize = 0;
        while i < password.len()
            invariant
                i <= password@.len(),
                text@ == password@.take(i as int),
            decreases password@.len() - i,
        {
            text.push(password[i]);
            assert(password@.take(i + 1) =~= password@.take(i as int).push(password@[i as int]));
            i = i + 1;
        }
        assert(password@.take(password@.len() as int) =~= password@);
        Ok(text)
    }
}

/// A character of one class belongs to the whole character set, the symbols
/// where they are in use.
proof fn lemma_member_of_charset(c: char, include_symbols: bool)
    requires
        spec_lowercase().contains(c) || spec_uppercase().contains(c) || spec_numbers().contains(c)
            || (include_symbols && spec_symbols().contains(c)),
    ensures
        spec_charset(include_symbols).contains(c),
{
    let all = spec_charset(include_symbols);
    let lower = spec_lowercase();
    let upper = spec_uppercase();
    let digits = spec_numbers();
    let symbols = spec_symbols();
    if lower.contains(c) {
        let i = choose|i: int| 0 <= i < lower.len() && lower[i] == c;
        assert(all[i] == c);
    } else if upper.contains(c) {
        let i = choose|i: int| 0 <= i < upper.len() && upper[i] == c;
        assert(all[lower.len() + i] == c);
    } else if digits.contains(c) {
        let i = choose|i: int| 0 <= i < digits.len() && digits[i] == c;
        assert(all[lower.len() + upper.len() + i] == c);
    } else {
        let i = choose|i: int| 0 <= i < symbols.len() && symbols[i] == c;
        assert(all[lower.len() + upper.len() + digits.len() + i] == c);
    }
}

} // verus!
