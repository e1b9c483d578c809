//! Age of Empires II civilization names used as default session titles,
//! with Roman-numeral suffixes once every name is taken.

use crate::text::{chars_eq, chars_of, string_of};
use vstd::prelude::*;

verus! {

/// The civilization names titles are drawn from.
pub const CIVILIZATIONS: [&'static str; 50] = [
    "Armenians",
    "Aztecs",
    "Bengalis",
    "Berbers",
    "Bohemians",
    "Britons",
    "Bulgarians",
    "Burgundians",
    "Burmese",
    "Byzantines",
    "Celts",
    "Chinese",
    "Cumans",
    "Dravidians",
    "Ethiopians",
    "Franks",
    "Georgians",
    "Goths",
    "Gurjaras",
    "Hindustanis",
    "Huns",
    "Incas",
    "Italians",
    "Japanese",
    "Jurchens",
    "Khitans",
    "Khmer",
    "Koreans",
    "Lithuanians",
    "Magyars",
    "Malay",
    "Malians",
    "Mayans",
    "Mongols",
    "Persians",
    "Poles",
    "Portuguese",
    "Romans",
    "Saracens",
    "Shu",
    "Sicilians",
    "Slavs",
    "Spanish",
    "Tatars",
    "Teutons",
    "Turks",
    "Vietnamese",
    "Vikings",
    "Wei",
    "Wu",
];

/// Value of the `k`-th entry of the numeral table (largest first).
pub open spec fn numeral_value(k: int) -> nat {
    if k == 0 {
        1000
    } else if k == 1 {
        900
    } else if k == 2 {
        500
    } else if k == 3 {
        400
    } else if k == 4 {
        100
    } else if k == 5 {
        90
    } else if k == 6 {
        50
    } else if k == 7 {
        40
    } else if k == 8 {
        10
    } else if k == 9 {
        9
    } else if k == 10 {
        5
    } else if k == 11 {
        4
    } else {
        1
    }
}

/// Letters of the `k`-th entry of the numeral table.
pub open spec fn numeral_letters(k: int) -> Seq<char> {
    if k == 0 {
        seq!['M']
    } else if k == 1 {
        seq!['C', 'M']
    } else if k == 2 {
        seq!['D']
    } else if k == 3 {
        seq!['C', 'D']
    } else if k == 4 {
        seq!['C']
    } else if k == 5 {
        seq!['X', 'C']
    } else if k == 6 {
        seq!['L']
    } else if k == 7 {
        seq!['X', 'L']
    } else if k == 8 {
        seq!['X']
    } else if k == 9 {
        seq!['I', 'X']
    } else if k == 10 {
        seq!['V']
    } else if k == 11 {
        seq!['I', 'V']
    } else {
        seq!['I']
    }
}

/// Roman numeral for `n` written with table entries `k` onwards, always
/// taking the largest entry that still fits.
pub open spec fn roman_from(n: nat, k: int) -> Seq<char>
    decreases 13 - k, n,
{
    if k >= 13 || k < 0 {
        Seq::empty()
    } else if n >= numeral_value(k) {
        numeral_letters(k) + roman_from((n - numeral_value(k)) as nat, k)
    } else {
        roman_from(n, k + 1)
    }
}

/// The Roman numeral for `n` (empty for zero).
pub open spec fn roman(n: nat) -> Seq<char> {
    roman_from(n, 0)
}

fn numeral_value_exec(k: usize) -> (v: u32)
    requires
        k < 13,
    ensures
        v == numeral_value(k as int),
{
    if k == 0 {
        1000
    } else if k == 1 {
        900
    } else if k == 2 {
        500
    } else if k == 3 {
        400
    } else if k == 4 {
        100
    } else if k == 5 {
        90
    } else if k == 6 {
        50
    } else if k == 7 {
        40
    } else if k == 8 {
        10
    } else if k == 9 {
        9
    } else if k == 10 {
        5
    } else if k == 11 {
        4
    } else {
        1
    }
}

fn push_numeral(out: &mut Vec<char>, k: usize)
    requires
        k < 13,
    ensures
        final(out)@ == old(out)@ + numeral_letters(k as int),
{
    let ghost start = out@;
    if k == 0 {
        out.push('M');
    } else if k == 1 {
        out.push('C');
        out.push('M');
    } else if k == 2 {
        out.push('D');
    } else if k == 3 {
        out.push('C');
        out.push('D');
    } else if k == 4 {
        out.push('C');
    } else if k == 5 {
        out.push('X');
        out.push('C');
    } else if k == 6 {
        out.push('L');
    } else if k == 7 {
        out.push('X');
        out.push('L');
    } else if k == 8 {
        out.push('X');
    } else if k == 9 {
        out.push('I');
        out.push('X');
    } else if k == 10 {
        out.push('V');
    } else if k == 11 {
        out.push('I');
        out.push('V');
    } else {
        out.push('I');
    }
    assert(out@ =~= start + numeral_letters(k as int));
}

/// Writes `n` in Roman numerals.
pub fn to_roman(n: u32) -> (r: String)
    ensures
        r@ == roman(n as nat),
{
    let mut out: Vec<char> = Vec::new();
    let mut remaining: u32 = n;
    let mut k: usize = 0;
    while k < 13
        invariant
            k <= 13,
            out@ + roman_from(remaining as nat, k as int) == roman(n as nat),
        decreases 13 - k,
    {
        let value = numeral_value_exec(k);
        while remaining >= value
            invariant
                k < 13,
                value == numeral_value(k as int),
                out@ + roman_from(remaining as nat, k as int) == roman(n as nat),
            decreases remaining,
        {
            let ghost before = out@;
            push_numeral(&mut out, k);
            remaining = remaining - value;
            assert(out@ + roman_from(remaining as nat, k as int) =~= before + (numeral_letters(
                k as int,
            ) + roman_from(remaining as nat, k as int)));
        }
        k += 1;
    }
    assert(out@ + Seq::<char>::empty() =~= out@);
    string_of(&out)
}

/// Whether the title `t` is among `existing`.
pub open spec fn is_taken(existing: Seq<&str>, t: Seq<char>) -> bool {
    exists|i: int| 0 <= i < existing.len() && (#[trigger] existing[i])@ == t
}

/// Whether the title `t` is among `existing`.
pub fn title_is_taken(existing: &[&str], t: &Vec<char>) -> (r: bool)
    ensures
        r == is_taken(existing@, t@),
{
    let mut i: usize = 0;
    while i < existing.len()
        invariant
            i <= existing@.len(),
            forall|k: int| 0 <= k < i ==> (#[trigger] existing@[k])@ != t@,
        decreases existing@.len() - i,
    {
        let e = chars_of(existing[i]);
        if chars_eq(&e, t) {
            assert(existing@[i as int]@ == t@);
            return true;
        }
        i += 1;
    }
    false
}

/// `base`, a space, then `suffix`.
pub open spec fn with_suffix(base: Seq<char>, suffix: Seq<char>) -> Seq<char> {
    base + seq![' '] + suffix
}

/// The decimal digits of `n`.
pub open spec fn decimal_digits(n: nat) -> Seq<char>
    decreases n,
{
    if n < 10 {
        seq![(n + '0' as nat) as char]
    } else {
        decimal_digits(n / 10) + seq![((n % 10) + '0' as nat) as char]
    }
}

/// `v` written in decimal, with a leading `-` when negative.
pub open spec fn decimal(v: int) -> Seq<char> {
    if v < 0 {
        seq!['-'] + decimal_digits((-v) as nat)
    } else {
        decimal_digits(v as nat)
    }
}

fn digits_of(n: u64) -> (r: Vec<char>)
    ensures
        r@ == decimal_digits(n as nat),
    decreases n,
{
    if n < 10 {
        let mut r: Vec<char> = Vec::new();
        let c = ((n as u32) + ('0' as u32)) as u8 as char;
        assert(c == (n + '0' as nat) as char);
        r.push(c);
        assert(r@ =~= seq![(n + '0' as nat) as char]);
        r
    } else {
        let mut r = digits_of(n / 10);
        let d = n % 10;
        let c = ((d as u32) + ('0' as u32)) as u8 as char;
        assert(c == ((n % 10) + '0' as nat) as char);
        r.push(c);
        r
    }
}

/// Writes `n` in decimal.
pub fn u64_to_decimal(n: u64) -> (r: Vec<char>)
    ensures
        r@ == decimal_digits(n as nat),
{
    digits_of(n)
}

/// Writes `v` in decimal.
pub fn i64_to_decimal(v: i64) -> (r: Vec<char>)
    ensures
        r@ == decimal(v as int),
{
    if v < 0 {
        let mag: u64 = (-(v as i128)) as u64;
        let mut r: Vec<char> = Vec::new();
        r.push('-');
        let d = digits_of(mag);
        crate::text::extend_chars(&mut r, &d);
        assert(r@ =~= seq!['-'] + decimal_digits((-(v as int)) as nat));
        r
    } else {
        digits_of(v as u64)
    }
}

/// The current Unix time in seconds (`chrono::Utc::now().timestamp()`).
#[verifier::external_body]
fn unix_timestamp() -> i64 {
    chrono::Utc::now().timestamp()
}

/// Some civilization name is not yet taken.
pub open spec fn some_civilization_free(existing: Seq<&str>) -> bool {
    exists|i: int| 0 <= i < 50 && !is_taken(existing, (#[trigger] CIVILIZATIONS[i])@)
}

/// `t` is the first of `base II`, `base III`, ... `base M` that is not
/// taken.
pub open spec fn first_free_numbered(existing: Seq<&str>, base: Seq<char>, t: Seq<char>) -> bool {
    exists|n: nat|
        2 <= n <= 1000 && t == with_suffix(base, roman(n)) && !is_taken(existing, t) && forall|m: nat|
            2 <= m < n ==> is_taken(existing, #[trigger] with_suffix(base, roman(m)))
}

/// The first untaken numbered variant of `base`, if any up to `M` is.
pub fn numbered_title(base: &str, existing: &[&str]) -> (r: Option<String>)
    ensures
        r matches Some(t) ==> first_free_numbered(existing@, base@, t@),
        r is None ==> forall|m: nat|
            2 <= m <= 1000 ==> is_taken(existing@, #[trigger] with_suffix(base@, roman(m))),
{
    let b = chars_of(base);
    let mut n: u32 = 2;
    while n <= 1000
        invariant
            2 <= n <= 1001,
            b@ == base@,
            forall|m: nat| 2 <= m < n ==> is_taken(existing@, #[trigger] with_suffix(base@, roman(m))),
        decreases 1001 - n,
    {
        let mut candidate = b.clone();
        candidate.push(' ');
        let numeral = chars_of(to_roman(n).as_str());
        crate::text::extend_chars(&mut candidate, &numeral);
        assert(candidate@ =~= with_suffix(base@, roman(n as nat)));
        if !title_is_taken(existing, &candidate) {
            return Some(string_of(&candidate));
        }
        n += 1;
    }
    None
}

/// Entry `k` of the free list is civilization `idx[k]`, which is not taken.
pub open spec fn free_entry(av: Seq<&str>, idx: Seq<usize>, existing: Seq<&str>, k: int) -> bool {
    &&& idx[k] < 50
    &&& av[k] == CIVILIZATIONS[idx[k] as int]
    &&& !is_taken(existing, av[k]@)
}

/// What a generated title can be: while some civilization name is free,
/// one of the free names; else the first free numbered variant (`II` to
/// `M`) of some civilization, or, where all of those are taken, that name
/// followed by a number (the current Unix time).
pub open spec fn random_title(existing: Seq<&str>, r: Seq<char>) -> bool {
    &&& some_civilization_free(existing) ==> (exists|i: int|
        0 <= i < 50 && r == (#[trigger] CIVILIZATIONS[i])@) && !is_taken(existing, r)
    &&& !some_civilization_free(existing) ==> exists|b: int|
        0 <= b < 50 && (first_free_numbered(existing, (#[trigger] CIVILIZATIONS[b])@, r)
            || (forall|m: nat|
            2 <= m <= 1000 ==> is_taken(
                existing,
                #[trigger] with_suffix(CIVILIZATIONS[b]@, roman(m)),
            )) && exists|t: i64| r == with_suffix(CIVILIZATIONS[b]@, decimal(t as int)))
}

/// A session title not among `existing`: a random civilization name that
/// is still free; when all are taken, the first free numbered variant
/// (`II` to `M`) of a random civilization; failing that, that name
/// followed by the current Unix time.
pub fn generate_random_title(existing_titles: &[&str]) -> (r: String)
    ensures
        random_title(existing_titles@, r@),
{
    let mut available: Vec<&str> = Vec::new();
    let mut idx: Vec<usize> = Vec::new();
    let mut i: usize = 0;
    while i < 50
        invariant
            i <= 50,
            available.len() == idx.len(),
            forall|k: int| 0 <= k < available.len() ==> #[trigger] free_entry(available@, idx@, existing_titles@, k),
            forall|j: int| 0 <= j < i && !is_taken(existing_titles@, (#[trigger] CIVILIZATIONS[j])@)
                ==> exists|k: int| 0 <= k < available.len() && idx@[k] == j,
        decreases 50 - i,
    {
        let name = CIVILIZATIONS[i];
        let ghost old_av = available@;
        let ghost old_idx = idx@;
        let taken = title_is_taken(existing_titles, &chars_of(name));
        if !taken {
            available.push(name);
            idx.push(i);
        }
        assert forall|k: int| 0 <= k < available.len() implies #[trigger] free_entry(available@, idx@, existing_titles@, k) by {
            if k < old_av.len() {
                assert(free_entry(old_av, old_idx, existing_titles@, k));
                assert(available@[k] == old_av[k]);
                assert(idx@[k] == old_idx[k]);
            }
        }
        assert forall|j: int|
            0 <= j < i + 1 && !is_taken(
                existing_titles@,
                (#[trigger] CIVILIZATIONS[j])@,
            ) implies exists|k: int| 0 <= k < available.len() && idx@[k] == j by {
            if j < i {
                let k = choose|k: int| 0 <= k < old_av.len() && old_idx[k] == j;
                assert(idx@[k] == old_idx[k]);
            } else {
                assert(idx@[idx.len() - 1] == j);
            }
        }
        i += 1;
    }
    let av = available.as_slice();
    assert(av@ == available@);
    if let Some(chosen) = crate::random::pick(av) {
        let ghost k = choose|k: int| 0 <= k < av@.len() && av@[k] == *chosen;
        assert(free_entry(available@, idx@, existing_titles@, k));
        let c: &str = *chosen;
        assert(CIVILIZATIONS[idx@[k] as int] == c);
        return c.to_string();
    }
    assert(!some_civilization_free(existing_titles@)) by {
        if some_civilization_free(existing_titles@) {
            let j = choose|j: int| 0 <= j < 50 && !is_taken(existing_titles@, (#[trigger] CIVILIZATIONS[j])@);
            assert(exists|k: int| 0 <= k < available.len() && idx@[k] == j);
        }
    }
    let civs = CIVILIZATIONS.as_slice();
    assert(civs@.len() == 50);
    let base: &str = match crate::random::pick(civs) {
        Some(c) => *c,
        None => "Session",
    };
    let ghost b = choose|b: int| 0 <= b < 50 && civs@[b] == base;
    assert(CIVILIZATIONS[b] == base);
    match numbered_title(base, existing_titles) {
        Some(t) => t,
        None => {
            let mut out = chars_of(base);
            out.push(' ');
            let ts = unix_timestamp();
            let digits = i64_to_decimal(ts);
            crate::text::extend_chars(&mut out, &digits);
            assert(out@ =~= with_suffix(CIVILIZATIONS[b]@, decimal(ts as int)));
            string_of(&out)
        },
    }
}

} // verus!
