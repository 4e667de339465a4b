use vstd::prelude::*;
use vstd::string::StrSliceExecFns;
use vstd::string::StringExecFns;

verus! {

/// `String::push` of the standard library appends one character to the end
/// of the string and leaves the characters before it as they were.
pub assume_specification[ String::push ](s: &mut String, ch: char)
    ensures
        final(s)@ == old(s)@.push(ch),
;

/// The character of the digit `d` in base 16, lower case.
pub open spec fn hex_digit(d: int) -> char {
    if d == 0 {
        '0'
    } else if d == 1 {
        '1'
    } else if d == 2 {
        '2'
    } else if d == 3 {
        '3'
    } else if d == 4 {
        '4'
    } else if d == 5 {
        '5'
    } else if d == 6 {
        '6'
    } else if d == 7 {
        '7'
    } else if d == 8 {
        '8'
    } else if d == 9 {
        '9'
    } else if d == 10 {
        'a'
    } else if d == 11 {
        'b'
    } else if d == 12 {
        'c'
    } else if d == 13 {
        'd'
    } else if d == 14 {
        'e'
    } else {
        'f'
    }
}

/// The bytes in base 16: two lower-case digits for each byte, the high one
/// first.
pub open spec fn hex_string(bytes: Seq<u8>) -> Seq<char> {
    Seq::new(
        2 * bytes.len(),
        |i: int|
            if i % 2 == 0 {
                hex_digit(bytes[i / 2] as int / 16)
            } else {
                hex_digit(bytes[i / 2] as int % 16)
            },
    )
}

/// The number in base 10, without leading zeros.
pub open spec fn decimal(n: nat) -> Seq<char>
    decreases n,
{
    if n < 10 {
        seq![hex_digit(n as int)]
    } else {
        decimal(n / 10).push(hex_digit((n % 10) as int))
    }
}

/// `k` zeros, and none where `k` is not positive.
pub open spec fn zeros(k: int) -> Seq<char> {
    Seq::new(
        if k > 0 {
            k as nat
        } else {
            0
        },
        |i: int| '0',
    )
}

/// The number in base 10, filled up with zeros on the left to `width`
/// characters; in a negative number the sign comes first and counts.
pub open spec fn padded(v: int, width: int) -> Seq<char> {
    if v >= 0 {
        zeros(width - decimal(v as nat).len()) + decimal(v as nat)
    } else {
        seq!['-'] + zeros(width - 1 - decimal((-v) as nat).len()) + decimal((-v) as nat)
    }
}

/// The text with an underscore in the place of each space.
pub open spec fn underscored(text: Seq<char>) -> Seq<char> {
    Seq::new(
        text.len(),
        |i: int|
            if text[i] == ' ' {
                '_'
            } else {
                text[i]
            },
    )
}

/// A number has one digit below 10, two below 100, three below 1000, and
/// four or more from there on.
pub proof fn lemma_decimal_len(n: nat)
    ensures
        n < 10 ==> decimal(n).len() == 1,
        10 <= n < 100 ==> decimal(n).len() == 2,
        100 <= n < 1000 ==> decimal(n).len() == 3,
        1000 <= n ==> decimal(n).len() >= 4,
    decreases n,
{
    if n >= 10 {
        lemma_decimal_len(n / 10);
    }
}

fn digit(d: u8) -> (c: char)
    requires
        d < 16,
    ensures
        c == hex_digit(d as int),
{
    match d {
        0 => '0',
        1 => '1',
        2 => '2',
        3 => '3',
        4 => '4',
        5 => '5',
        6 => '6',
        7 => '7',
        8 => '8',
        9 => '9',
        10 => 'a',
        11 => 'b',
        12 => 'c',
        13 => 'd',
        14 => 'e',
        _ => 'f',
    }
}

/// The checksum in short: each byte as two lower-case digits of base 16.
pub fn short_checksum(checksum: &[u8]) -> (s: String)
    ensures
        s@ == hex_string(checksum@),
{
    let mut s = String::new();
    let mut i: usize = 0;
    while i < checksum.len()
        invariant
            i <= checksum@.len(),
            s@.len() == 2 * i,
            forall|j: int| 0 <= j < 2 * i ==> s@[j] == hex_string(checksum@)[j],
        decreases checksum@.len() - i,
    {
        let b = checksum[i];
        s.push(digit(b / 16));
        s.push(digit(b % 16));
        i += 1;
    }
    proof {
        assert(s@ =~= hex_string(checksum@));
    }
    s
}

fn push_decimal(s: &mut String, n: u64)
    ensures
        final(s)@ == old(s)@ + decimal(n as nat),
    decreases n,
{
    if n >= 10 {
        push_decimal(s, n / 10);
        s.push(digit((n % 10) as u8));
        proof {
            assert(s@ =~= old(s)@ + decimal(n as nat));
        }
    } else {
        s.push(digit(n as u8));
        proof {
            assert(s@ =~= old(s)@ + decimal(n as nat));
        }
    }
}

fn push_zeros(s: &mut String, k: usize)
    ensures
        final(s)@ == old(s)@ + zeros(k as int),
{
    let mut i: usize = 0;
    proof {
        assert(s@ =~= old(s)@ + zeros(0));
    }
    while i < k
        invariant
            i <= k,
            s@ == old(s)@ + zeros(i as int),
        decreases k - i,
    {
        s.push('0');
        proof {
            assert(s@ =~= old(s)@ + zeros(i + 1));
        }
        i += 1;
    }
}

/// The number in base 10, filled up with zeros to four characters.
pub fn zero_padded(version: i64) -> (s: String)
    ensures
        s@ == padded(version as int, 4),
{
    let mut s = String::new();
    let magnitude: u64 = if version >= 0 {
        version as u64
    } else {
        (-(version + 1)) as u64 + 1
    };
    proof {
        lemma_decimal_len(magnitude as nat);
    }
    let digits: usize = if magnitude < 10 {
        1
    } else if magnitude < 100 {
        2
    } else if magnitude < 1000 {
        3
    } else {
        4
    };
    if version < 0 {
        s.push('-');
        push_zeros(&mut s, 3 - (if digits > 3 {
            3
        } else {
            digits
        }));
    } else {
        push_zeros(&mut s, 4 - digits);
    }
    let ghost filled = s@;
    push_decimal(&mut s, magnitude);
    proof {
        let d = decimal(magnitude as nat);
        if version >= 0 {
            assert(filled =~= zeros(4 - d.len()));
        } else {
            assert(filled =~= seq!['-'] + zeros(3 - d.len()));
        }
        assert(s@ =~= padded(version as int, 4));
    }
    s
}

/// The text with an underscore in the place of each space.
pub fn replace_spaces(text: &str) -> (s: String)
    ensures
        s@ == underscored(text@),
{
    let mut s = String::new();
    let n = text.unicode_len();
    let mut i: usize = 0;
    while i < n
        invariant
            n == text@.len(),
            i <= n,
            s@.len() == i,
            forall|j: int| 0 <= j < i ==> s@[j] == underscored(text@)[j],
        decreases n - i,
    {
        let c = text.get_char(i);
        if c == ' ' {
            s.push('_');
        } else {
            s.push(c);
        }
        i += 1;
    }
    proof {
        assert(s@ =~= underscored(text@));
    }
    s
}

/// The name of a script file: the prefix, an underscore, the description
/// with underscores for spaces, and the ending.
pub open spec fn spec_file_name(
    prefix: Seq<char>,
    description: Seq<char>,
    suffix: Seq<char>,
) -> Seq<char> {
    prefix.push('_') + underscored(description) + suffix
}

/// The name of a script file: the prefix, an underscore, the description
/// with underscores for spaces, and the ending.
pub fn file_name(file_prefix: &str, description: &str, suffix: &str) -> (name: String)
    ensures
        name@ == spec_file_name(file_prefix@, description@, suffix@),
{
    let mut name = String::from_str(file_prefix);
    name.push('_');
    let replaced = replace_spaces(description);
    name.append(replaced.as_str());
    name.append(suffix);
    name
}

} // verus!
