//! The numbered loading wallpapers `bg1.basisu.ktx2` to `bg12.basisu.ktx2`.

use vstd::prelude::*;

verus! {

/// First characters of every wallpaper file name.
pub const WALLPAPER_PREFIX: &'static str = "bg";

/// Last characters of every wallpaper file name.
pub const WALLPAPER_SUFFIX: &'static str = ".basisu.ktx2";

/// Highest wallpaper number.
pub const MAX_WALLPAPER: u8 = 12;

/// `c` is an ASCII decimal digit.
pub open spec fn is_digit(c: char) -> bool {
    '0' <= c <= '9'
}

/// Value of a run of decimal digits, most significant first.
pub open spec fn digits_value(digits: Seq<char>) -> int
    decreases digits.len(),
{
    if digits.len() == 0 {
        0
    } else {
        digits_value(digits.drop_last()) * 10 + (digits.last() as int - '0' as int)
    }
}

/// `text` without one leading plus sign.
pub open spec fn unsigned_part(text: Seq<char>) -> Seq<char> {
    if text.len() > 0 && text[0] == '+' {
        text.drop_first()
    } else {
        text
    }
}

/// Every character of `text` is a decimal digit.
pub open spec fn all_digits(text: Seq<char>) -> bool {
    forall|i: int| 0 <= i < text.len() ==> is_digit(#[trigger] text[i])
}

/// What `u8::from_str` makes of `text`: an optional `+`, then one or more decimal digits
/// whose value fits in a byte.
pub open spec fn parsed_u8(text: Seq<char>) -> Option<u8> {
    let digits = unsigned_part(text);
    if digits.len() == 0 || !all_digits(digits) {
        None
    } else if digits_value(digits) > 255 {
        None
    } else {
        Some(digits_value(digits) as u8)
    }
}

/// Number of the wallpaper named `name`, if it is one: the prefix, a number from 1 to 12
/// as `u8::from_str` reads it, and the suffix.
pub open spec fn wallpaper_number_of(name: Seq<char>) -> Option<u8> {
    let p = WALLPAPER_PREFIX@.len() as int;
    let s = WALLPAPER_SUFFIX@.len() as int;
    if name.len() >= p + s && name.take(p) == WALLPAPER_PREFIX@ && name.skip(name.len() - s)
        == WALLPAPER_SUFFIX@ {
        match parsed_u8(name.subrange(p, name.len() - s)) {
            Some(n) => if 1 <= n <= MAX_WALLPAPER {
                Some(n)
            } else {
                None
            },
            None => None,
        }
    } else {
        None
    }
}

/// Reads the characters `from..to` of `text` as `u8::from_str` does.
fn parse_u8(text: &str, from: usize, to: usize) -> (value: Option<u8>)
    requires
        from <= to <= text@.len(),
    ensures
        value == parsed_u8(text@.subrange(from as int, to as int)),
{
    let ghost whole = text@.subrange(from as int, to as int);
    let mut start = from;
    if start < to && text.get_char(start) == '+' {
        start = start + 1;
    }
    let ghost digits = text@.subrange(start as int, to as int);
    assert(digits == if whole.len() > 0 && whole[0] == '+' {
        whole.drop_first()
    } else {
        whole
    });
    if start == to {
        return None;
    }
    let mut capped: u32 = 0;
    let mut i = start;
    while i < to
        invariant
            from <= start <= i <= to <= text@.len(),
            digits == text@.subrange(start as int, to as int),
            whole == text@.subrange(from as int, to as int),
            digits == if whole.len() > 0 && whole[0] == '+' {
                whole.drop_first()
            } else {
                whole
            },
            forall|j: int| start <= j < i ==> is_digit(#[trigger] text@[j]),
            capped == if digits_value(text@.subrange(start as int, i as int)) > 256 {
                256
            } else {
                digits_value(text@.subrange(start as int, i as int))
            },
            digits_value(text@.subrange(start as int, i as int)) >= 0,
        decreases to - i,
    {
        let c = text.get_char(i);
        if !('0' <= c && c <= '9') {
            assert(!is_digit(digits[i - start]));
            assert(!all_digits(digits));
            return None;
        }
        let d = (c as u32) - ('0' as u32);
        assert(text@.subrange(start as int, i + 1).drop_last() =~= text@.subrange(start as int, i as int));
        capped = if capped * 10 + d > 256 {
            256
        } else {
            capped * 10 + d
        };
        i = i + 1;
    }
    assert(text@.subrange(start as int, to as int) =~= digits);
    assert forall|j: int| 0 <= j < digits.len() implies is_digit(#[trigger] digits[j]) by {
        assert(digits[j] == text@[start + j]);
    }
    assert(all_digits(digits));
    if capped > 255 {
        None
    } else {
        Some(capped as u8)
    }
}

/// Number of the loading wallpaper named `file_name`, or `None` for any other file.
pub fn wallpaper_number(file_name: &str) -> (number: Option<u8>)
    ensures
        number == wallpaper_number_of(file_name@),
{
    proof {
        reveal_strlit("bg");
        reveal_strlit(".basisu.ktx2");
    }
    let len = file_name.unicode_len();
    let p = WALLPAPER_PREFIX.unicode_len();
    let s = WALLPAPER_SUFFIX.unicode_len();
    if len < p + s {
        return None;
    }
    let mut k: usize = 0;
    while k < p
        invariant
            k <= p,
            p == WALLPAPER_PREFIX@.len(),
            p + s <= len,
            len == file_name@.len(),
            forall|j: int| 0 <= j < k ==> file_name@[j] == WALLPAPER_PREFIX@[j],
        decreases p - k,
    {
        if file_name.get_char(k) != WALLPAPER_PREFIX.get_char(k) {
            assert(file_name@.take(p as int)[k as int] != WALLPAPER_PREFIX@[k as int]);
            return None;
        }
        k = k + 1;
    }
    assert(file_name@.take(p as int) =~= WALLPAPER_PREFIX@);
    let mut k: usize = 0;
    while k < s
        invariant
            k <= s,
            s == WALLPAPER_SUFFIX@.len(),
            p + s <= len,
            len == file_name@.len(),
            forall|j: int| 0 <= j < k ==> file_name@[len - s + j] == WALLPAPER_SUFFIX@[j],
        decreases s - k,
    {
        if file_name.get_char(len - s + k) != WALLPAPER_SUFFIX.get_char(k) {
            assert(file_name@.skip(len - s)[k as int] != WALLPAPER_SUFFIX@[k as int]);
            return None;
        }
        k = k + 1;
    }
    assert(file_name@.skip(len - s) =~= WALLPAPER_SUFFIX@);
    match parse_u8(file_name, p, len - s) {
        Some(n) => if 1 <= n && n <= MAX_WALLPAPER {
            Some(n)
        } else {
            None
        },
        None => None,
    }
}

/// Entry `x` comes before entry `y`: a lower number, or the same number at an earlier position.
pub open spec fn before(x: (u8, usize), y: (u8, usize)) -> bool {
    x.0 < y.0 || (x.0 == y.0 && x.1 < y.1)
}

/// The wallpapers among `names`, as (number, position) pairs ordered by number and then
/// by position, as a stable sort by number orders them.
pub fn numbered_wallpapers(names: &Vec<String>) -> (wallpapers: Vec<(u8, usize)>)
    ensures
        forall|x: int, y: int|
            0 <= x < y < wallpapers@.len() ==> before(#[trigger] wallpapers@[x], #[trigger] wallpapers@[y]),
        forall|k: int|
            0 <= k < wallpapers@.len() ==> (#[trigger] wallpapers@[k]).1 < names@.len()
                && wallpaper_number_of(names@[wallpapers@[k].1 as int]@) == Some(wallpapers@[k].0),
        forall|i: int|
            0 <= i < names@.len() && #[trigger] wallpaper_number_of(names@[i]@) is Some ==> exists|
                k: int,
            |
                0 <= k < wallpapers@.len() && wallpapers@[k].1 == i,
{
    let count = names.len();
    let mut numbers: Vec<Option<u8>> = Vec::new();
    let mut i: usize = 0;
    while i < count
        invariant
            count == names@.len(),
            i <= count,
            numbers@.len() == i,
            forall|j: int| 0 <= j < i ==> #[trigger] numbers@[j] == wallpaper_number_of(names@[j]@),
        decreases count - i,
    {
        numbers.push(wallpaper_number(names[i].as_str()));
        i = i + 1;
    }
    let mut wallpapers: Vec<(u8, usize)> = Vec::new();
    let mut number: u8 = 1;
    while number <= MAX_WALLPAPER
        invariant
            count == names@.len(),
            numbers@.len() == count,
            forall|j: int| 0 <= j < count ==> #[trigger] numbers@[j] == wallpaper_number_of(names@[j]@),
            1 <= number <= MAX_WALLPAPER + 1,
            forall|x: int, y: int|
                0 <= x < y < wallpapers@.len() ==> before(#[trigger] wallpapers@[x], #[trigger] wallpapers@[y]),
            forall|k: int|
                0 <= k < wallpapers@.len() ==> (#[trigger] wallpapers@[k]).1 < count
                    && numbers@[wallpapers@[k].1 as int] == Some(wallpapers@[k].0)
                    && wallpapers@[k].0 < number,
            forall|j: int|
                0 <= j < count && (#[trigger] numbers@[j] matches Some(n) && n < number) ==> exists|
                    k: int,
                |
                    0 <= k < wallpapers@.len() && wallpapers@[k].1 == j,
        decreases MAX_WALLPAPER + 1 - number,
    {
        let ghost start_len = wallpapers@.len();
        let mut j: usize = 0;
        while j < count
            invariant
                count == names@.len(),
                numbers@.len() == count,
                1 <= number <= MAX_WALLPAPER,
                start_len <= wallpapers@.len(),
                j <= count,
                forall|x: int, y: int|
                    0 <= x < y < wallpapers@.len() ==> before(#[trigger] wallpapers@[x], #[trigger] wallpapers@[y]),
                forall|k: int|
                    0 <= k < wallpapers@.len() ==> (#[trigger] wallpapers@[k]).1 < count
                        && numbers@[wallpapers@[k].1 as int] == Some(wallpapers@[k].0)
                        && wallpapers@[k].0 <= number,
                forall|k: int|
                    start_len <= k < wallpapers@.len() ==> (#[trigger] wallpapers@[k]).0 == number
                        && wallpapers@[k].1 < j,
                forall|k: int| 0 <= k < start_len ==> (#[trigger] wallpapers@[k]).0 < number,
                forall|i: int|
                    0 <= i < count && (#[trigger] numbers@[i] matches Some(n) && (n < number || (n
                        == number && i < j))) ==> exists|k: int|
                        0 <= k < wallpapers@.len() && wallpapers@[k].1 == i,
            decreases count - j,
        {
            if numbers[j] == Some(number) {
                let ghost before_push = wallpapers@;
                wallpapers.push((number, j));
                assert forall|i: int|
                    0 <= i < count && (#[trigger] numbers@[i] matches Some(n) && (n < number || (n
                        == number && i < j + 1))) implies exists|k: int|
                    0 <= k < wallpapers@.len() && wallpapers@[k].1 == i by {
                    if i == j {
                        assert(wallpapers@[before_push.len() as int].1 == i);
                    } else {
                        let k = choose|k: int| 0 <= k < before_push.len() && before_push[k].1 == i;
                        assert(wallpapers@[k].1 == i);
                    }
                }
            }
            j = j + 1;
        }
        number = number + 1;
    }
    assert forall|i: int|
        0 <= i < names@.len() && #[trigger] wallpaper_number_of(names@[i]@) is Some implies exists|
        k: int,
    |
        0 <= k < wallpapers@.len() && wallpapers@[k].1 == i by {
        let n = wallpaper_number_of(names@[i]@)->0;
        assert(numbers@[i] == Some(n));
        assert(n <= MAX_WALLPAPER);
    }
    wallpapers
}

} // verus!
