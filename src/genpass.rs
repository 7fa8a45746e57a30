//! Random passwords drawn from chosen character classes.
use crate::error::TextError;
use crate::primitives::{ascii_bytes, ascii_chars, lemma_ascii_utf8, random_below, shuffle_bytes, utf8_to_string};
use vstd::prelude::*;

verus! {

/// An upper-case letter other than `I` and `O`.
pub open spec fn is_upper_symbol(b: u8) -> bool {
    65 <= b <= 90 && b != 73 && b != 79
}

/// A lower-case letter other than `l`.
pub open spec fn is_lower_symbol(b: u8) -> bool {
    97 <= b <= 122 && b != 108
}

/// A digit other than `0`.
pub open spec fn is_number_symbol(b: u8) -> bool {
    49 <= b <= 57
}

/// One of `!@#$%^&*_`.
pub open spec fn is_special_symbol(b: u8) -> bool {
    b == 33 || b == 64 || b == 35 || b == 36 || b == 37 || b == 94 || b == 38 || b == 42 || b
        == 95
}

/// Whether `b` belongs to one of the chosen classes.
pub open spec fn is_password_symbol(b: u8, upper: bool, lower: bool, number: bool, symbol: bool) -> bool {
    (upper && is_upper_symbol(b)) || (lower && is_lower_symbol(b)) || (number && is_number_symbol(b))
        || (symbol && is_special_symbol(b))
}

/// How many classes are chosen.
pub open spec fn class_count(upper: bool, lower: bool, number: bool, symbol: bool) -> nat {
    (if upper { 1nat } else { 0nat }) + (if lower { 1nat } else { 0nat }) + (if number {
        1nat
    } else {
        0nat
    }) + (if symbol { 1nat } else { 0nat })
}

/// Whether `p` holds only symbols of the classes chosen in `flags` (upper,
/// lower, number, symbol) and, for each class set in `need`, one symbol of
/// that class.
pub open spec fn covers(p: Seq<u8>, flags: (bool, bool, bool, bool), need: (bool, bool, bool, bool)) -> bool {
    &&& forall|i: int|
        0 <= i < p.len() ==> is_password_symbol(#[trigger] p[i], flags.0, flags.1, flags.2, flags.3)
    &&& need.0 ==> exists|i: int| 0 <= i < p.len() && is_upper_symbol(#[trigger] p[i])
    &&& need.1 ==> exists|i: int| 0 <= i < p.len() && is_lower_symbol(#[trigger] p[i])
    &&& need.2 ==> exists|i: int| 0 <= i < p.len() && is_number_symbol(#[trigger] p[i])
    &&& need.3 ==> exists|i: int| 0 <= i < p.len() && is_special_symbol(#[trigger] p[i])
}

/// Whether `p` is a password of `length` symbols of the chosen classes, with
/// at least one of each chosen class.
pub open spec fn is_password(
    p: Seq<u8>,
    length: nat,
    upper: bool,
    lower: bool,
    number: bool,
    symbol: bool,
) -> bool {
    p.len() == length && covers(p, (upper, lower, number, symbol), (upper, lower, number, symbol))
}

/// Appending a symbol of a chosen class keeps what `covers` says, and adds
/// that symbol's class.
proof fn lemma_covers_push(
    p: Seq<u8>,
    c: u8,
    flags: (bool, bool, bool, bool),
    need: (bool, bool, bool, bool),
    more: (bool, bool, bool, bool),
)
    requires
        covers(p, flags, need),
        is_password_symbol(c, flags.0, flags.1, flags.2, flags.3),
        more.0 ==> need.0 || is_upper_symbol(c),
        more.1 ==> need.1 || is_lower_symbol(c),
        more.2 ==> need.2 || is_number_symbol(c),
        more.3 ==> need.3 || is_special_symbol(c),
    ensures
        covers(p.push(c), flags, more),
{
    let q = p.push(c);
    assert(q[p.len() as int] == c);
    assert forall|i: int| 0 <= i < q.len() implies is_password_symbol(
        #[trigger] q[i],
        flags.0,
        flags.1,
        flags.2,
        flags.3,
    ) by {
        if i < p.len() {
            assert(q[i] == p[i]);
        }
    }
    if more.0 && need.0 {
        let i = choose|i: int| 0 <= i < p.len() && is_upper_symbol(#[trigger] p[i]);
        assert(q[i] == p[i]);
    }
    if more.1 && need.1 {
        let i = choose|i: int| 0 <= i < p.len() && is_lower_symbol(#[trigger] p[i]);
        assert(q[i] == p[i]);
    }
    if more.2 && need.2 {
        let i = choose|i: int| 0 <= i < p.len() && is_number_symbol(#[trigger] p[i]);
        assert(q[i] == p[i]);
    }
    if more.3 && need.3 {
        let i = choose|i: int| 0 <= i < p.len() && is_special_symbol(#[trigger] p[i]);
        assert(q[i] == p[i]);
    }
}

/// Reordering keeps what `covers` says.
proof fn lemma_covers_reorder(
    p: Seq<u8>,
    q: Seq<u8>,
    flags: (bool, bool, bool, bool),
    need: (bool, bool, bool, bool),
)
    requires
        covers(p, flags, need),
        q.to_multiset() == p.to_multiset(),
    ensures
        covers(q, flags, need),
        q.len() == p.len(),
{
    p.to_multiset_ensures();
    q.to_multiset_ensures();
    assert forall|i: int| 0 <= i < q.len() implies is_password_symbol(
        #[trigger] q[i],
        flags.0,
        flags.1,
        flags.2,
        flags.3,
    ) by {
        assert(q.contains(q[i]));
        assert(p.to_multiset().count(q[i]) > 0);
        assert(p.contains(q[i]));
    }
    if need.0 {
        let i = choose|i: int| 0 <= i < p.len() && is_upper_symbol(#[trigger] p[i]);
        assert(p.contains(p[i]));
        assert(q.to_multiset().count(p[i]) > 0);
        assert(q.contains(p[i]));
    }
    if need.1 {
        let i = choose|i: int| 0 <= i < p.len() && is_lower_symbol(#[trigger] p[i]);
        assert(p.contains(p[i]));
        assert(q.to_multiset().count(p[i]) > 0);
        assert(q.contains(p[i]));
    }
    if need.2 {
        let i = choose|i: int| 0 <= i < p.len() && is_number_symbol(#[trigger] p[i]);
        assert(p.contains(p[i]));
        assert(q.to_multiset().count(p[i]) > 0);
        assert(q.contains(p[i]));
    }
    if need.3 {
        let i = choose|i: int| 0 <= i < p.len() && is_special_symbol(#[trigger] p[i]);
        assert(p.contains(p[i]));
        assert(q.to_multiset().count(p[i]) > 0);
        assert(q.contains(p[i]));
    }
    assert(q.to_multiset().len() == p.to_multiset().len());
}

fn upper_symbols() -> (r: Vec<u8>)
    ensures
        r@.len() > 0,
        forall|i: int| 0 <= i < r@.len() ==> is_upper_symbol(#[trigger] r@[i]),
{
    vec![
        65, 66, 67, 68, 69, 70, 71, 72, 74, 75, 76, 77, 78, 80, 81, 82, 83, 84, 85, 86, 87, 88,
        89, 90,
    ]
}

fn lower_symbols() -> (r: Vec<u8>)
    ensures
        r@.len() > 0,
        forall|i: int| 0 <= i < r@.len() ==> is_lower_symbol(#[trigger] r@[i]),
{
    vec![
        97, 98, 99, 100, 101, 102, 103, 104, 105, 106, 107, 109, 110, 111, 112, 113, 114, 115,
        116, 117, 118, 119, 120, 121, 122,
    ]
}

fn number_symbols() -> (r: Vec<u8>)
    ensures
        r@.len() > 0,
        forall|i: int| 0 <= i < r@.len() ==> is_number_symbol(#[trigger] r@[i]),
{
    vec![49, 50, 51, 52, 53, 54, 55, 56, 57]
}

fn special_symbols() -> (r: Vec<u8>)
    ensures
        r@.len() > 0,
        forall|i: int| 0 <= i < r@.len() ==> is_special_symbol(#[trigger] r@[i]),
{
    vec![33, 64, 35, 36, 37, 94, 38, 42, 95]
}

/// Adds one random symbol of `class` to `password` and all of `class` to `pool`.
fn draw_class(class: &Vec<u8>, password: &mut Vec<u8>, pool: &mut Vec<u8>)
    requires
        class@.len() > 0,
    ensures
        final(password)@.len() == old(password)@.len() + 1,
        final(password)@ == old(password)@.push(final(password)@.last()),
        exists|k: int| 0 <= k < class@.len() && class@[k] == final(password)@.last(),
        final(pool)@ == old(pool)@ + class@,
{
    let k = random_below(class.len());
    let c = class[k];
    password.push(c);
    let mut i: usize = 0;
    let ghost start = pool@;
    assert(class@.subrange(0, 0) =~= Seq::<u8>::empty());
    assert(start + class@.subrange(0, 0) =~= start);
    while i < class.len()
        invariant
            i <= class@.len(),
            pool@ == start + class@.subrange(0, i as int),
        decreases class@.len() - i,
    {
        pool.push(class[i]);
        i = i + 1;
        assert(pool@ =~= start + class@.subrange(0, i as int));
    }
    assert(class@.subrange(0, class@.len() as int) =~= class@);
}

/// Whether every byte of `pool` belongs to a class chosen in `flags`.
pub open spec fn pool_allowed(pool: Seq<u8>, flags: (bool, bool, bool, bool)) -> bool {
    forall|i: int|
        0 <= i < pool.len() ==> is_password_symbol(#[trigger] pool[i], flags.0, flags.1, flags.2, flags.3)
}

/// Whether `b` belongs to class `k`: upper, lower, number, symbol in turn.
pub open spec fn in_class(k: int, b: u8) -> bool {
    if k == 0 {
        is_upper_symbol(b)
    } else if k == 1 {
        is_lower_symbol(b)
    } else if k == 2 {
        is_number_symbol(b)
    } else {
        is_special_symbol(b)
    }
}

/// Whether class `k` is chosen in `flags`.
pub open spec fn chosen(flags: (bool, bool, bool, bool), k: int) -> bool {
    if k == 0 {
        flags.0
    } else if k == 1 {
        flags.1
    } else if k == 2 {
        flags.2
    } else {
        flags.3
    }
}

/// `need` with class `k` added.
pub open spec fn with_class(need: (bool, bool, bool, bool), k: int) -> (bool, bool, bool, bool) {
    (need.0 || k == 0, need.1 || k == 1, need.2 || k == 2, need.3 || k == 3)
}

/// The symbols of class `k`.
fn class_symbols(k: usize) -> (r: Vec<u8>)
    requires
        k < 4,
    ensures
        r@.len() > 0,
        forall|i: int| 0 <= i < r@.len() ==> in_class(k as int, #[trigger] r@[i]),
{
    if k == 0 {
        upper_symbols()
    } else if k == 1 {
        lower_symbols()
    } else if k == 2 {
        number_symbols()
    } else {
        special_symbols()
    }
}

/// Adds one random symbol of the chosen class `k` to `password` and the
/// whole class to `pool`.
fn add_class(
    k: usize,
    password: &mut Vec<u8>,
    pool: &mut Vec<u8>,
    flags: Ghost<(bool, bool, bool, bool)>,
    need: Ghost<(bool, bool, bool, bool)>,
)
    requires
        k < 4,
        chosen(flags@, k as int),
        covers(old(password)@, flags@, need@),
        pool_allowed(old(pool)@, flags@),
    ensures
        covers(final(password)@, flags@, with_class(need@, k as int)),
        pool_allowed(final(pool)@, flags@),
        final(password)@.len() == old(password)@.len() + 1,
        final(pool)@.len() > old(pool)@.len(),
{
    let class = class_symbols(k);
    let ghost (p0, q0) = (password@, pool@);
    let ghost flags = flags@;
    draw_class(&class, password, pool);
    proof {
        let c = password@.last();
        let j = choose|j: int| 0 <= j < class@.len() && class@[j] == c;
        assert(in_class(k as int, class@[j]));
        lemma_covers_push(p0, c, flags, need@, with_class(need@, k as int));
        assert forall|i: int| 0 <= i < pool@.len() implies is_password_symbol(
            #[trigger] pool@[i],
            flags.0,
            flags.1,
            flags.2,
            flags.3,
        ) by {
            if i >= q0.len() {
                assert(pool@[i] == class@[i - q0.len()]);
                assert(in_class(k as int, class@[i - q0.len()]));
            } else {
                assert(pool@[i] == q0[i]);
            }
        }
    }
}

/// A random password of `length` symbols from the chosen classes, with at
/// least one of each chosen class, in random order. A format error where no
/// class is chosen, a length error where `length` is below the number of
/// chosen classes.
pub fn generate_password(length: u8, upper: bool, lower: bool, number: bool, symbol: bool) -> (r:
    Result<Vec<u8>, TextError>)
    ensures
        match r {
            Ok(p) => class_count(upper, lower, number, symbol) > 0 && is_password(
                p@,
                length as nat,
                upper,
                lower,
                number,
                symbol,
            ),
            Err(e) => if class_count(upper, lower, number, symbol) == 0 {
                e == TextError::Format
            } else {
                length < class_count(upper, lower, number, symbol) && e == TextError::Length
            },
        },
{
    let ghost flags = (upper, lower, number, symbol);
    let mut password: Vec<u8> = Vec::new();
    let mut pool: Vec<u8> = Vec::new();
    if upper {
        add_class(0, &mut password, &mut pool, Ghost(flags), Ghost((false, false, false, false)));
    }
    assert(covers(password@, flags, (upper, false, false, false)));
    assert(password@.len() == class_count(upper, false, false, false));
    assert(pool@.len() == 0 ==> password@.len() == 0);
    if lower {
        add_class(1, &mut password, &mut pool, Ghost(flags), Ghost((upper, false, false, false)));
    }
    assert(covers(password@, flags, (upper, lower, false, false)));
    assert(password@.len() == class_count(upper, lower, false, false));
    assert(pool@.len() == 0 ==> password@.len() == 0);
    if number {
        add_class(2, &mut password, &mut pool, Ghost(flags), Ghost((upper, lower, false, false)));
    }
    assert(covers(password@, flags, (upper, lower, number, false)));
    assert(password@.len() == class_count(upper, lower, number, false));
    assert(pool@.len() == 0 ==> password@.len() == 0);
    if symbol {
        add_class(3, &mut password, &mut pool, Ghost(flags), Ghost((upper, lower, number, false)));
    }
    assert(covers(password@, flags, flags));
    assert(password@.len() == class_count(upper, lower, number, symbol));
    if pool.len() == 0 {
        return Err(TextError::Format);
    }
    if (length as usize) < password.len() {
        return Err(TextError::Length);
    }
    while password.len() < length as usize
        invariant
            pool@.len() > 0,
            pool_allowed(pool@, flags),
            covers(password@, flags, flags),
            password@.len() <= length,
        decreases length - password@.len(),
    {
        let c = pool[random_below(pool.len())];
        proof {
            lemma_covers_push(password@, c, flags, flags, flags);
        }
        password.push(c);
    }
    let ghost drawn = password@;
    shuffle_bytes(&mut password);
    proof {
        lemma_covers_reorder(drawn, password@, flags, flags);
    }
    Ok(password)
}

/// A random password of `length` symbols, as for `generate_password`.
pub fn process_genpass(length: u8, upper: bool, lower: bool, number: bool, symbol: bool) -> (r:
    Result<String, TextError>)
    ensures
        match r {
            Ok(s) => class_count(upper, lower, number, symbol) > 0 && s@ == ascii_chars(
                ascii_bytes(s@),
            ) && is_password(ascii_bytes(s@), length as nat, upper, lower, number, symbol),
            Err(e) => if class_count(upper, lower, number, symbol) == 0 {
                e == TextError::Format
            } else {
                length < class_count(upper, lower, number, symbol) && e == TextError::Length
            },
        },
{
    let password = match generate_password(length, upper, lower, number, symbol) {
        Ok(p) => p,
        Err(e) => return Err(e),
    };
    let ghost p = password@;
    proof {
        assert forall|i: int| 0 <= i < p.len() implies #[trigger] p[i] < 128 by {
            assert(is_password_symbol(p[i], upper, lower, number, symbol));
        }
        lemma_ascii_utf8(p);
        assert(ascii_bytes(ascii_chars(p)) =~= p);
    }
    match utf8_to_string(password) {
        Some(s) => Ok(s),
        None => Err(TextError::Format),
    }
}

} // verus!
