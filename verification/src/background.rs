//! Names of the cached copies of the background image scaled to a screen.
use crate::color::{channel, Color};
use vstd::prelude::*;
use vstd::string::StringExecFns;

verus! {

/// The digit for `d` in base 16 or less, lower case.
pub open spec fn digit_char(d: int) -> char {
    if d < 10 {
        ('0' as int + d) as char
    } else {
        ('a' as int + d - 10) as char
    }
}

/// `n` written in decimal, without leading zeros.
pub open spec fn decimal(n: nat) -> Seq<char>
    decreases n,
{
    if n < 10 {
        seq![digit_char(n as int)]
    } else {
        decimal(n / 10).push(digit_char((n % 10) as int))
    }
}

/// `n` written in lower-case hexadecimal, without leading zeros.
pub open spec fn hexadecimal(n: nat) -> Seq<char>
    decreases n,
{
    if n < 16 {
        seq![digit_char(n as int)]
    } else {
        hexadecimal(n / 16).push(digit_char((n % 16) as int))
    }
}

/// What the cache name of a background is made from: its path, its
/// modification time in seconds, and the size it is scaled to, as
/// `<path>:<mtime>:<w>x<h>`.
pub open spec fn cache_key(path: Seq<char>, mtime: u64, w: u32, h: u32) -> Seq<char> {
    path + seq![':'] + decimal(mtime as nat) + seq![':'] + decimal(w as nat) + seq!['x'] + decimal(
        h as nat,
    )
}

/// The xxh3 64-bit hash of the UTF-8 bytes of a string.
pub uninterp spec fn xxh3_64_of(s: Seq<char>) -> u64;

/// Hashes the UTF-8 bytes of `s` with `xxhash_rust::const_xxh3::xxh3_64`.
/// The contract only names the result, which is a function of the string.
#[verifier::external_body]
fn hash_str(s: &str) -> (h: u64)
    ensures
        h == xxh3_64_of(s@),
{
    xxhash_rust::const_xxh3::xxh3_64(s.as_bytes())
}

/// The one-character string for digit `d`.
pub(crate) fn digit_str(d: u64) -> (s: &'static str)
    requires
        d < 16,
    ensures
        s@ == seq![digit_char(d as int)],
{
    proof {
        reveal_strlit("0");
        reveal_strlit("1");
        reveal_strlit("2");
        reveal_strlit("3");
        reveal_strlit("4");
        reveal_strlit("5");
        reveal_strlit("6");
        reveal_strlit("7");
        reveal_strlit("8");
        reveal_strlit("9");
        reveal_strlit("a");
        reveal_strlit("b");
        reveal_strlit("c");
        reveal_strlit("d");
        reveal_strlit("e");
        reveal_strlit("f");
    }
    let s = if d == 0 {
        "0"
    } else if d == 1 {
        "1"
    } else if d == 2 {
        "2"
    } else if d == 3 {
        "3"
    } else if d == 4 {
        "4"
    } else if d == 5 {
        "5"
    } else if d == 6 {
        "6"
    } else if d == 7 {
        "7"
    } else if d == 8 {
        "8"
    } else if d == 9 {
        "9"
    } else if d == 10 {
        "a"
    } else if d == 11 {
        "b"
    } else if d == 12 {
        "c"
    } else if d == 13 {
        "d"
    } else if d == 14 {
        "e"
    } else {
        "f"
    };
    assert(s@ =~= seq![digit_char(d as int)]);
    s
}

/// Appends `n` in decimal to `s`.
pub(crate) fn push_decimal(s: &mut String, n: u64)
    ensures
        final(s)@ == old(s)@ + decimal(n as nat),
    decreases n,
{
    if n >= 10 {
        push_decimal(s, n / 10);
    }
    s.append(digit_str(n % 10));
    proof {
        if n >= 10 {
            assert(old(s)@ + decimal(n as nat) =~= old(s)@ + decimal((n / 10) as nat) + seq![
                digit_char((n % 10) as int),
            ]);
        }
    }
}

/// Appends `n` in lower-case hexadecimal to `s`.
fn push_hexadecimal(s: &mut String, n: u64)
    ensures
        final(s)@ == old(s)@ + hexadecimal(n as nat),
    decreases n,
{
    if n >= 16 {
        push_hexadecimal(s, n / 16);
    }
    s.append(digit_str(n % 16));
    proof {
        if n >= 16 {
            assert(old(s)@ + hexadecimal(n as nat) =~= old(s)@ + hexadecimal((n / 16) as nat) + seq![
                digit_char((n % 16) as int),
            ]);
        }
    }
}

/// The key of the cached copy of the background at `path`, modified at
/// `mtime`, scaled to `w` by `h`.
pub fn cache_key_exec(path: &str, mtime: u64, w: u32, h: u32) -> (k: String)
    ensures
        k@ == cache_key(path@, mtime, w, h),
{
    proof {
        reveal_strlit(":");
        reveal_strlit("x");
    }
    let mut k = path.to_owned();
    k.append(":");
    push_decimal(&mut k, mtime);
    k.append(":");
    push_decimal(&mut k, w as u64);
    k.append("x");
    push_decimal(&mut k, h as u64);
    assert(k@ =~= cache_key(path@, mtime, w, h));
    k
}

/// The file name of the cached copy whose key hashes to `hash`: the hash in
/// lower-case hexadecimal, then `.bmp`.
pub fn cache_name_of_hash(hash: u64) -> (name: String)
    ensures
        name@ == hexadecimal(hash as nat) + seq!['.', 'b', 'm', 'p'],
{
    proof {
        reveal_strlit(".bmp");
    }
    let mut name = String::new();
    push_hexadecimal(&mut name, hash);
    name.append(".bmp");
    assert(name@ =~= hexadecimal(hash as nat) + seq!['.', 'b', 'm', 'p']);
    name
}

/// The file name of the cached copy of the background at `path`, modified at
/// `mtime`, scaled to `w` by `h`: the hash of its key, as
/// `cache_name_of_hash` writes it.
pub fn cache_file_name(path: &str, mtime: u64, w: u32, h: u32) -> (name: String)
    ensures
        name@ == hexadecimal(xxh3_64_of(cache_key(path@, mtime, w, h)) as nat) + seq!['.', 'b', 'm', 'p'],
{
    let key = cache_key_exec(path, mtime, w, h);
    let hash = hash_str(key.as_str());
    cache_name_of_hash(hash)
}


/// The cached copy of the background at `path`, modified at `mtime`, scaled
/// to `w` by `h`: its path in the cache directory `/var/cache/backgrounds`,
/// and the hash of its key that names it.
pub fn cached_background(path: &str, mtime: u64, w: u32, h: u32) -> (r: (String, u64))
    ensures
        r.1 == xxh3_64_of(cache_key(path@, mtime, w, h)),
        r.0@ == "/var/cache/backgrounds/"@ + hexadecimal(r.1 as nat) + seq!['.', 'b', 'm', 'p'],
{
    let key = cache_key_exec(path, mtime, w, h);
    let hash = hash_str(key.as_str());
    let name = cache_name_of_hash(hash);
    let mut full = String::from_str("/var/cache/backgrounds/");
    full.append(name.as_str());
    (full, hash)
}

/// The bytes the background cache stores for the pixels `data`.
pub fn rgba_bytes(data: &[Color]) -> (bytes: Vec<u8>)
    requires
        4 * data@.len() <= usize::MAX,
    ensures
        bytes@.len() == 4 * data@.len(),
        forall|i: int|
            0 <= i < data@.len() ==> {
                &&& #[trigger] bytes@[4 * i] == channel(data@[i].data, 2)
                &&& bytes@[4 * i + 1] == channel(data@[i].data, 1)
                &&& bytes@[4 * i + 2] == channel(data@[i].data, 0)
                &&& bytes@[4 * i + 3] == channel(data@[i].data, 3)
            },
{
    let mut bytes: Vec<u8> = Vec::new();
    let mut k: usize = 0;
    while k < data.len()
        invariant
            k <= data@.len(),
            4 * data@.len() <= usize::MAX,
            bytes@.len() == 4 * k,
            forall|i: int|
                0 <= i < k ==> {
                    &&& #[trigger] bytes@[4 * i] == channel(data@[i].data, 2)
                    &&& bytes@[4 * i + 1] == channel(data@[i].data, 1)
                    &&& bytes@[4 * i + 2] == channel(data@[i].data, 0)
                    &&& bytes@[4 * i + 3] == channel(data@[i].data, 3)
                },
        decreases data@.len() - k,
    {
        let c = data[k];
        let ghost b0 = bytes@;
        bytes.push(c.r());
        bytes.push(c.g());
        bytes.push(c.b());
        bytes.push(c.a());
        proof {
            assert forall|i: int| 0 <= i < k + 1 implies {
                &&& #[trigger] bytes@[4 * i] == channel(data@[i].data, 2)
                &&& bytes@[4 * i + 1] == channel(data@[i].data, 1)
                &&& bytes@[4 * i + 2] == channel(data@[i].data, 0)
                &&& bytes@[4 * i + 3] == channel(data@[i].data, 3)
            } by {
                if i < k {
                    assert(bytes@[4 * i] == b0[4 * i]);
                    assert(bytes@[4 * i + 1] == b0[4 * i + 1]);
                    assert(bytes@[4 * i + 2] == b0[4 * i + 2]);
                    assert(bytes@[4 * i + 3] == b0[4 * i + 3]);
                }
            }
        }
        k = k + 1;
    }
    bytes
}

} // verus!
