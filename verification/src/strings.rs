//! The `.debug_str` section: a byte table of null-terminated strings,
//! addressed by offset.  Name attributes in string-offset form are
//! resolved against it.

use vstd::prelude::*;

verus! {

/// The raw bytes of a `.debug_str` section.
pub struct StringTable {
    pub bytes: Vec<u8>,
}

impl View for StringTable {
    type V = Seq<u8>;

    open spec fn view(&self) -> Seq<u8> {
        self.bytes@
    }
}

/// The index of the first zero byte of `tab` at or after `off`, if any.
pub open spec fn nul_scan(tab: Seq<u8>, off: int) -> Option<int>
    decreases tab.len() - off,
{
    if off < 0 || off >= tab.len() {
        None
    } else if tab[off] == 0 {
        Some(off)
    } else {
        nul_scan(tab, off + 1)
    }
}

/// The null-terminated byte string of `tab` that starts at `off`:
/// the bytes from `off` up to the first zero byte, or nothing when
/// `off` is out of range or no zero byte follows it.
pub open spec fn spec_strtab_lookup(tab: Seq<u8>, off: int) -> Option<Seq<u8>> {
    match nul_scan(tab, off) {
        None => None,
        Some(end) => Some(tab.subrange(off, end)),
    }
}

/// The character sequence that lossy UTF-8 conversion reads from a
/// byte sequence.
pub uninterp spec fn lossy_str(bytes: Seq<u8>) -> Seq<char>;

/// Relies on `String::from_utf8_lossy`: the characters produced depend
/// on the bytes alone.
#[verifier::external_body]
fn utf8_lossy(bytes: &Vec<u8>) -> (r: String)
    ensures
        r@ == lossy_str(bytes@),
{
    String::from_utf8_lossy(bytes.as_slice()).into_owned()
}

impl StringTable {
    /// Resolve a string-section offset to the null-terminated string
    /// that starts there, converting its bytes lossily to UTF-8; fail
    /// when the offset is out of range or no terminator follows it.
    pub fn resolve(&self, offset: u64) -> (r: Option<String>)
        ensures
            match r {
                Some(s) => spec_strtab_lookup(self@, offset as int) matches Some(b) && s@
                    == lossy_str(b),
                None => spec_strtab_lookup(self@, offset as int) is None,
            },
    {
        let n = self.bytes.len();
        if offset >= n as u64 {
            return None;
        }
        let start = offset as usize;
        let mut i: usize = start;
        while i < n && self.bytes[i] != 0
            invariant
                start <= i <= n,
                n == self@.len(),
                start < n,
                forall|k: int| start <= k < i ==> self@[k] != 0,
                nul_scan(self@, start as int) == nul_scan(self@, i as int),
            decreases n - i,
        {
            i += 1;
        }
        if i == n {
            return None;
        }
        let mut name_bytes: Vec<u8> = Vec::new();
        let mut j: usize = start;
        while j < i
            invariant
                start <= j <= i < n,
                n == self@.len(),
                name_bytes@ =~= self@.subrange(start as int, j as int),
            decreases i - j,
        {
            name_bytes.push(self.bytes[j]);
            proof {
                assert(name_bytes@ =~= self@.subrange(start as int, j as int + 1));
            }
            j += 1;
        }
        Some(utf8_lossy(&name_bytes))
    }
}

} // verus!
