//! Text rules: filename sanitization, decimal rendering for cache file
//! names, Unicode composition for captions, extracting a caption from an
//! archive entry name, and which archive entries a batch keeps.

use unicode_normalization::UnicodeNormalization;
use vstd::prelude::*;

verus! {

/// View of `sanitize_filename`: every double quote becomes an underscore.
pub open spec fn sanitized(s: Seq<char>) -> Seq<char> {
    s.map_values(
        |c: char|
            if c == '"' {
                '_'
            } else {
                c
            },
    )
}

/// Relies on `<String as FromIterator<&char>>::from_iter` (through
/// `Iterator::collect`): the string holds exactly the characters of `v`, in
/// order.
#[verifier::external_body]
fn chars_to_string(v: &Vec<char>) -> (r: String)
    ensures
        r@ == v@,
{
    v.iter().collect()
}

/// Replace characters invalid in a filename (double quotes) by underscores.
pub fn sanitize_filename(filename: &String) -> (r: String)
    ensures
        r@ == sanitized(filename@),
{
    let s: &str = filename.as_str();
    let n: usize = s.unicode_len();
    let mut out: Vec<char> = Vec::new();
    let mut i: usize = 0;
    while i < n
        invariant
            i <= n,
            n == filename@.len(),
            s@ == filename@,
            out@ == sanitized(filename@.take(i as int)),
        decreases n - i,
    {
        let c: char = s.get_char(i);
        if c == '"' {
            out.push('_');
        } else {
            out.push(c);
        }
        proof {
            assert(out@ =~= sanitized(filename@.take(i + 1 as int)));
        }
        i = i + 1;
    }
    proof {
        assert(filename@.take(n as int) =~= filename@);
    }
    chars_to_string(&out)
}

/// The decimal digit character for `d`.
pub open spec fn dec_digit(d: nat) -> char
    recommends
        d < 10,
{
    ((d + 48) as u8) as char
}

/// The decimal digits of `n`, most significant first, no leading zeros
/// (a single zero for zero).
pub open spec fn dec_digits(n: nat) -> Seq<char>
    decreases n,
{
    if n < 10 {
        seq![dec_digit(n)]
    } else {
        dec_digits(n / 10).push(dec_digit(n % 10))
    }
}

/// Render `n` in decimal.
pub fn u64_to_dec_string(n: u64) -> (r: String)
    ensures
        r@ == dec_digits(n as nat),
{
    let mut rev: Vec<char> = Vec::new();
    let mut m: u64 = n;
    let c0: u8 = 48 + (m % 10) as u8;
    rev.push(c0 as char);
    proof {
        assert(rev@.reverse() =~= seq![dec_digit((n % 10) as nat)]);
    }
    m = m / 10;
    while m > 0
        invariant
            dec_digits(n as nat) == if m == 0 {
                rev@.reverse()
            } else {
                dec_digits(m as nat) + rev@.reverse()
            },
        decreases m,
    {
        let ghost old_rev = rev@;
        let ghost old_m = m as nat;
        let c: u8 = 48 + (m % 10) as u8;
        rev.push(c as char);
        proof {
            assert(rev@.reverse() =~= seq![dec_digit((old_m % 10) as nat)] + old_rev.reverse());
        }
        m = m / 10;
        proof {
            if m == 0 {
                assert(dec_digits(old_m) =~= seq![dec_digit(old_m % 10)]);
                assert(dec_digits(n as nat) =~= rev@.reverse());
            } else {
                assert(dec_digits(old_m) =~= dec_digits(old_m / 10) + seq![
                    dec_digit(old_m % 10),
                ]);
                assert(dec_digits(n as nat) =~= dec_digits(m as nat) + rev@.reverse());
            }
        }
    }
    let mut out: Vec<char> = Vec::new();
    let mut i: usize = rev.len();
    while i > 0
        invariant
            i <= rev@.len(),
            out@ == rev@.reverse().take((rev@.len() - i) as int),
        decreases i,
    {
        i = i - 1;
        let c: char = rev[i];
        out.push(c);
        proof {
            assert(out@ =~= rev@.reverse().take((rev@.len() - i) as int));
        }
    }
    proof {
        assert(rev@.reverse().take(rev@.len() as int) =~= rev@.reverse());
    }
    chars_to_string(&out)
}

/// What `unicode_normalization`'s NFC iterator yields for this exact
/// character sequence.
pub uninterp spec fn nfc_of(s: Seq<char>) -> Seq<char>;

/// Compose diacritics: Unicode Normalization Form C of the input.
///
/// Relies on `unicode_normalization::UnicodeNormalization::nfc` (canonical
/// decomposition followed by canonical composition), a pure function of the
/// character sequence alone.
#[verifier::external_body]
pub fn normalize_unicode(to_normalize: &String) -> (r: String)
    ensures
        r@ == nfc_of(to_normalize@),
{
    to_normalize.nfc().collect()
}

/// Index of the first occurrence of `c` in `s` at or after `from`.
pub open spec fn find_from(s: Seq<char>, c: char, from: int) -> Option<int>
    decreases s.len() - from,
{
    if from < 0 || from >= s.len() {
        None
    } else if s[from] == c {
        Some(from)
    } else {
        find_from(s, c, from + 1)
    }
}

/// The caption embedded in an archive entry name `prefix_caption.extension`:
/// the characters between the first underscore and the first dot after it.
/// There is none unless prefix, caption and extension are all non-empty.
pub open spec fn spec_caption(s: Seq<char>) -> Option<Seq<char>> {
    match find_from(s, '_', 0) {
        Some(p) => if 1 <= p {
            match find_from(s, '.', p + 1) {
                Some(q) => if p + 1 < q && q + 1 < s.len() {
                    Some(s.subrange(p + 1, q))
                } else {
                    None
                },
                None => None,
            }
        } else {
            None
        },
        None => None,
    }
}

/// Find the first occurrence of `c` in `name` at or after `from`.
fn find_char(name: &str, c: char, from: usize, n: usize) -> (r: Option<usize>)
    requires
        from <= n,
        n == name@.len(),
    ensures
        match r {
            Some(p) => from <= p < n && Some(p as int) == find_from(name@, c, from as int),
            None => find_from(name@, c, from as int) is None,
        },
{
    let mut i: usize = from;
    while i < n && name.get_char(i) != c
        invariant
            from <= i <= n,
            n == name@.len(),
            find_from(name@, c, from as int) == find_from(name@, c, i as int),
        decreases n - i,
    {
        i = i + 1;
    }
    if i < n {
        Some(i)
    } else {
        None
    }
}

/// Extract the caption from an archive entry name shaped
/// `prefix_caption.extension` (see `spec_caption`); `None` when the name is
/// not of that shape.
pub fn caption_from_filename(name: &String) -> (r: Option<String>)
    ensures
        r.is_some() == spec_caption(name@).is_some(),
        r matches Some(c) ==> Some(c@) == spec_caption(name@),
{
    let s: &str = name.as_str();
    let n: usize = s.unicode_len();
    let p: usize = match find_char(s, '_', 0, n) {
        Some(p) => p,
        None => {
            return None;
        },
    };
    if p < 1 {
        return None;
    }
    let q: usize = match find_char(s, '.', p + 1, n) {
        Some(q) => q,
        None => {
            return None;
        },
    };
    if !(p + 1 < q && q + 1 < n) {
        return None;
    }
    let mut out: Vec<char> = Vec::new();
    let mut i: usize = p + 1;
    while i < q
        invariant
            p + 1 <= i <= q <= n,
            n == name@.len(),
            s@ == name@,
            out@ == name@.subrange(p + 1, i as int),
        decreases q - i,
    {
        let c: char = s.get_char(i);
        out.push(c);
        proof {
            assert(out@ =~= name@.subrange(p + 1, i + 1 as int));
        }
        i = i + 1;
    }
    Some(chars_to_string(&out))
}

/// The path prefix of macOS resource-fork entries.
pub open spec fn macos_metadata_path(path: Seq<char>) -> bool {
    path.len() >= 8 && path.subrange(0, 8) == "__MACOSX"@
}

/// Which archive entries the batch keeps: real files with a safe path that
/// are neither platform metadata nor known junk.
pub open spec fn spec_entry_kept(
    path: Seq<char>,
    name: Seq<char>,
    is_dir: bool,
    enclosed: bool,
) -> bool {
    enclosed && !is_dir && !macos_metadata_path(path) && name != ".DS_Store"@
}

/// Decide whether the archive entry at `path` (whose file name is `name`) is
/// part of the batch.  `is_dir` marks directory entries; `enclosed` says the
/// entry's path stays inside the archive root.
pub fn archive_entry_kept(path: &String, name: &String, is_dir: bool, enclosed: bool) -> (r: bool)
    ensures
        r == spec_entry_kept(path@, name@, is_dir, enclosed),
{
    if !enclosed || is_dir {
        return false;
    }
    let junk: String = ".DS_Store".to_owned();
    if name.eq(&junk) {
        return false;
    }
    let s: &str = path.as_str();
    let n: usize = s.unicode_len();
    let marker: &str = "__MACOSX";
    proof {
        reveal_strlit("__MACOSX");
    }
    if n >= 8 {
        let mut i: usize = 0;
        while i < 8 && s.get_char(i) == marker.get_char(i)
            invariant
                i <= 8,
                n >= 8,
                n == path@.len(),
                s@ == path@,
                marker@ == "__MACOSX"@,
                marker@.len() == 8,
                forall|j: int| 0 <= j < i ==> path@[j] == marker@[j],
            decreases 8 - i,
        {
            i = i + 1;
        }
        if i == 8 {
            proof {
                assert(path@.subrange(0, 8) =~= "__MACOSX"@);
            }
            return false;
        }
        proof {
            assert(path@.subrange(0, 8)[i as int] == path@[i as int]);
        }
    }
    true
}

} // verus!
