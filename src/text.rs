use vstd::prelude::*;

verus! {

/// The characters that `str::to_lowercase` gives for `s`.
pub uninterp spec fn lower_of(s: Seq<char>) -> Seq<char>;

/// The extension that `Path::extension` finds in the path `p`.
pub uninterp spec fn extension_of(p: Seq<char>) -> Option<Seq<char>>;

/// Relies on `str::to_lowercase`: the result depends on the characters of `s`
/// alone.
#[verifier::external_body]
pub(crate) fn lowercase(s: &str) -> (r: String)
    ensures
        r@ == lower_of(s@),
{
    s.to_lowercase()
}

/// Relies on `Path::extension`, read as UTF-8: the text after the last dot of
/// the path's final component, if there is one.
#[verifier::external_body]
pub(crate) fn path_extension(p: &str) -> (r: Option<String>)
    ensures
        match r {
            Some(e) => extension_of(p@) == Some(e@),
            None => extension_of(p@) is None,
        },
{
    std::path::Path::new(p).extension().and_then(|e| e.to_str()).map(|e| e.to_string())
}

/// `s` with every leading byte-order mark removed.
pub open spec fn strip_bom(s: Seq<char>) -> Seq<char>
    decreases s.len(),
{
    if s.len() > 0 && s[0] == '\u{feff}' {
        strip_bom(s.drop_first())
    } else {
        s
    }
}

/// Relies on `str::trim_start_matches` with a `char` pattern: every leading
/// byte-order mark is removed and the rest kept.
#[verifier::external_body]
pub(crate) fn trim_bom(s: &str) -> (r: String)
    ensures
        r@ == strip_bom(s@),
{
    s.trim_start_matches('\u{feff}').to_string()
}

/// A byte with ASCII upper-case letters mapped to lower case.
pub open spec fn ascii_lower_byte(x: u8) -> u8 {
    if 65 <= x <= 90 {
        (x + 32) as u8
    } else {
        x
    }
}

/// Bytes with ASCII upper-case letters mapped to lower case, others kept.
pub open spec fn ascii_lower(b: Seq<u8>) -> Seq<u8> {
    b.map_values(|x: u8| ascii_lower_byte(x))
}

/// The bytes of `b` with ASCII letters lowered.
pub fn to_ascii_lower(b: &[u8]) -> (r: Vec<u8>)
    ensures
        r@ == ascii_lower(b@),
{
    let mut r: Vec<u8> = Vec::new();
    let mut i: usize = 0;
    while i < b.len()
        invariant
            i <= b@.len(),
            r@ == ascii_lower(b@.subrange(0, i as int)),
        decreases b@.len() - i,
    {
        let x = b[i];
        let y: u8 = if 65 <= x && x <= 90 {
            x + 32
        } else {
            x
        };
        r.push(y);
        assert(b@.subrange(0, i + 1) =~= b@.subrange(0, i as int).push(x));
        assert(ascii_lower(b@.subrange(0, i + 1)) =~= ascii_lower(b@.subrange(0, i as int)).push(y));
        i = i + 1;
    }
    assert(b@.subrange(0, i as int) =~= b@);
    r
}

/// Whether two byte strings are equal.
pub fn bytes_equal(a: &[u8], b: &[u8]) -> (r: bool)
    ensures
        r == (a@ == b@),
{
    if a.len() != b.len() {
        return false;
    }
    let mut i: usize = 0;
    while i < a.len()
        invariant
            a@.len() == b@.len(),
            i <= a@.len(),
            forall|t: int| 0 <= t < i ==> a@[t] == b@[t],
        decreases a@.len() - i,
    {
        if a[i] != b[i] {
            return false;
        }
        i = i + 1;
    }
    assert(a@ =~= b@);
    true
}

} // verus!
