//! Directory-listing entries and their presentation order.
//!
//! The shell around this library walks the project directory itself; this
//! module holds the rules of that walk: which entries are skipped, and the
//! order a listing is presented in — directories first, then by name in
//! byte order of the UTF-8 form.

use vstd::prelude::*;
use vstd::utf8::encode_utf8;
use vstd::string::StringExecFns;

verus! {

/// One entry of a directory listing.
#[derive(Clone, Debug, PartialEq, Eq)]
pub struct FileEntry {
    pub name: String,
    pub path: String,
    pub is_dir: bool,
}

/// Mathematical value of a `FileEntry`.
pub struct FileEntryView {
    pub name: Seq<char>,
    pub path: Seq<char>,
    pub is_dir: bool,
}

impl View for FileEntry {
    type V = FileEntryView;

    open spec fn view(&self) -> FileEntryView {
        FileEntryView { name: self.name@, path: self.path@, is_dir: self.is_dir }
    }
}

/// Whether a directory walk leaves this entry name out entirely: the
/// version-control store and the two generated trees.
pub fn is_excluded_name(name: &String) -> (r: bool)
    ensures
        r == (name@ == ".git"@ || name@ == "node_modules"@ || name@ == "target"@),
{
    let git = String::from_str(".git");
    let modules = String::from_str("node_modules");
    let target = String::from_str("target");
    name.eq(&git) || name.eq(&modules) || name.eq(&target)
}

/// Whether a listing hides this entry: names that start with a dot.
pub fn is_hidden_name(name: &String) -> (r: bool)
    ensures
        r == (name@.len() > 0 && name@[0] == '.'),
{
    let bytes = name.as_str().as_bytes();
    proof {
        lemma_first_byte_dot(name@);
    }
    if bytes.len() == 0 {
        false
    } else {
        *vstd::slice::slice_index_get(bytes, 0) == 46
    }
}

/// Byte-wise lexicographic order: `x` comes no later than `y`.
pub open spec fn lex_le(x: Seq<u8>, y: Seq<u8>) -> bool
    decreases x.len(),
{
    if x.len() == 0 {
        true
    } else if y.len() == 0 {
        false
    } else if x[0] < y[0] {
        true
    } else if x[0] > y[0] {
        false
    } else {
        lex_le(x.drop_first(), y.drop_first())
    }
}

/// Any two byte strings are ordered one way or the other.
pub proof fn lemma_lex_le_total(x: Seq<u8>, y: Seq<u8>)
    ensures
        lex_le(x, y) || lex_le(y, x),
    decreases x.len(),
{
    if x.len() > 0 && y.len() > 0 && x[0] == y[0] {
        lemma_lex_le_total(x.drop_first(), y.drop_first());
    }
}

/// Two byte strings that agree on their first `i` bytes are ordered as
/// their tails from `i` on are.
proof fn lemma_lex_le_skip(x: Seq<u8>, y: Seq<u8>, i: int)
    requires
        0 <= i <= x.len(),
        i <= y.len(),
        forall|j: int| 0 <= j < i ==> x[j] == y[j],
    ensures
        lex_le(x, y) == lex_le(x.skip(i), y.skip(i)),
    decreases i,
{
    if i > 0 {
        assert(x[0] == y[0]);
        lemma_lex_le_skip(x.drop_first(), y.drop_first(), i - 1);
        assert(x.drop_first().skip(i - 1) =~= x.skip(i));
        assert(y.drop_first().skip(i - 1) =~= y.skip(i));
    } else {
        assert(x.skip(0) =~= x);
        assert(y.skip(0) =~= y);
    }
}

/// Whether `x` comes no later than `y` in byte order of the UTF-8 forms.
pub fn name_le(x: &String, y: &String) -> (r: bool)
    ensures
        r == lex_le(encode_utf8(x@), encode_utf8(y@)),
{
    let xb = x.as_str().as_bytes();
    let yb = y.as_str().as_bytes();
    let mut i: usize = 0;
    loop
        invariant
            i <= xb.len(),
            i <= yb.len(),
            xb@ == encode_utf8(x@),
            yb@ == encode_utf8(y@),
            forall|j: int| 0 <= j < i ==> xb@[j] == yb@[j],
        decreases xb.len() - i,
    {
        proof {
            lemma_lex_le_skip(xb@, yb@, i as int);
        }
        if i >= xb.len() {
            proof {
                assert(xb@.skip(i as int).len() == 0);
            }
            return true;
        }
        if i >= yb.len() {
            proof {
                assert(yb@.skip(i as int).len() == 0);
                assert(xb@.skip(i as int).len() > 0);
            }
            return false;
        }
        let xc = *vstd::slice::slice_index_get(xb, i);
        let yc = *vstd::slice::slice_index_get(yb, i);
        proof {
            assert(xb@.skip(i as int)[0] == xb@[i as int]);
            assert(yb@.skip(i as int)[0] == yb@[i as int]);
        }
        if xc < yc {
            return true;
        }
        if xc > yc {
            return false;
        }
        i += 1;
    }
}

/// Listing order: directories before files, and within each kind by name
/// in byte order of the UTF-8 form.
pub open spec fn entry_le(a: FileEntryView, b: FileEntryView) -> bool {
    if a.is_dir != b.is_dir {
        a.is_dir
    } else {
        lex_le(encode_utf8(a.name), encode_utf8(b.name))
    }
}

/// Any two entries are ordered one way or the other.
pub proof fn lemma_entry_le_total(a: FileEntryView, b: FileEntryView)
    ensures
        entry_le(a, b) || entry_le(b, a),
{
    if a.is_dir == b.is_dir {
        lemma_lex_le_total(encode_utf8(a.name), encode_utf8(b.name));
    }
}

/// Whether `a` comes no later than `b` in listing order.
pub fn entry_le_exec(a: &FileEntry, b: &FileEntry) -> (r: bool)
    ensures
        r == entry_le(a@, b@),
{
    if a.is_dir != b.is_dir {
        a.is_dir
    } else {
        name_le(&a.name, &b.name)
    }
}

/// Moving one element of a sequence to an earlier position leaves the
/// sequence's multiset unchanged.
proof fn lemma_move_element<A>(s: Seq<A>, k: int, pos: int)
    requires
        0 <= pos <= k < s.len(),
    ensures
        s.remove(k).insert(pos, s[k]).to_multiset() == s.to_multiset(),
{
    broadcast use vstd::seq_lib::group_to_multiset_ensures;

    let x = s[k];
    let t = s.remove(k);
    let u = t.insert(pos, x);
    assert(t.to_multiset() =~= s.to_multiset().remove(x));
    assert(u.remove(pos) =~= t);
    assert(u[pos] == x);
    assert(u.remove(pos).to_multiset() =~= u.to_multiset().remove(u[pos]));
    assert(u.contains(x));
    assert(s.contains(x));
    assert(u.to_multiset().count(x) > 0);
    assert(s.to_multiset().count(x) > 0);
    assert forall|y: A| u.to_multiset().count(y) == s.to_multiset().count(y) by {
        assert(t.to_multiset().count(y) == s.to_multiset().remove(x).count(y));
        assert(t.to_multiset().count(y) == u.to_multiset().remove(x).count(y));
    }
    assert(u.to_multiset() =~= s.to_multiset());
}

/// The listing, reordered: directories first, then by name, with exactly
/// the entries that came in.
pub fn sort_entries(entries: Vec<FileEntry>) -> (r: Vec<FileEntry>)
    ensures
        r@.len() == entries@.len(),
        forall|i: int| #![trigger r@[i]] 0 <= i < r@.len() - 1 ==> entry_le(r@[i]@, r@[i + 1]@),
        r@.to_multiset() == entries@.to_multiset(),
{
    let mut r = entries;
    let ghost orig = r@;
    if r.len() <= 1 {
        return r;
    }
    let mut k: usize = 1;
    while k < r.len()
        invariant
            r@.len() == orig.len(),
            orig == entries@,
            2 <= r@.len(),
            1 <= k <= r@.len(),
            forall|i: int| #![trigger r@[i]] 0 <= i < k - 1 ==> entry_le(r@[i]@, r@[i + 1]@),
            r@.to_multiset() == orig.to_multiset(),
        decreases r@.len() - k,
    {
        let ghost rr = r@;
        let mut pos: usize = k;
        while pos > 0 && !entry_le_exec(&r[pos - 1], &r[k])
            invariant
                r@ == rr,
                0 <= pos <= k < r@.len(),
                forall|j: int| #![trigger rr[j]] pos <= j < k ==> !entry_le(rr[j]@, rr[k as int]@),
            decreases pos,
        {
            pos -= 1;
        }
        let x = r.remove(k);
        r.insert(pos, x);
        proof {
            let nw = r@;
            assert(nw == rr.remove(k as int).insert(pos as int, rr[k as int]));
            lemma_move_element(rr, k as int, pos as int);
            assert forall|j: int| 0 <= j < nw.len() implies nw[j] == (if j < pos {
                rr[j]
            } else if j == pos {
                rr[k as int]
            } else if j <= k {
                rr[j - 1]
            } else {
                rr[j]
            }) by {
                assert(rr.remove(k as int).insert(pos as int, rr[k as int])[j] == (if j < pos {
                    rr[j]
                } else if j == pos {
                    rr[k as int]
                } else if j <= k {
                    rr[j - 1]
                } else {
                    rr[j]
                }));
            }
            assert forall|i: int| #![trigger nw[i]] 0 <= i < k implies entry_le(
                nw[i]@,
                nw[i + 1]@,
            ) by {
                let xv = rr[k as int]@;
                if i + 1 < pos {
                    assert(entry_le(rr[i]@, rr[i + 1]@));
                } else if i + 1 == pos {
                    assert(entry_le(rr[pos - 1]@, xv));
                } else if i == pos {
                    assert(!entry_le(rr[pos as int]@, xv));
                    lemma_entry_le_total(rr[pos as int]@, xv);
                } else {
                    assert(entry_le(rr[i - 1]@, rr[i]@));
                }
            }
        }
        k += 1;
    }
    r
}

/// The first byte of a string's UTF-8 form is the full-stop byte exactly
/// when its first character is a full stop.
proof fn lemma_first_byte_dot(chars: Seq<char>)
    ensures
        encode_utf8(chars).len() == 0 <==> chars.len() == 0,
        chars.len() > 0 ==> (encode_utf8(chars)[0] == 46 <==> chars[0] == '.'),
{
    if chars.len() > 0 {
        let c = chars[0] as u32;
        vstd::utf8::char_is_scalar(chars[0]);
        let first = vstd::utf8::encode_scalar(c);
        assert(encode_utf8(chars)[0] == first[0]);
        if vstd::utf8::has_width_1_encoding(c) {
            assert(first[0] == vstd::utf8::leading_byte_width_1(c));
            assert(c <= 0x7F ==> (((c & 0x7F) as u8 == 46) <==> c == 46)) by (bit_vector);
        } else if vstd::utf8::has_width_2_encoding(c) {
            assert(first[0] == vstd::utf8::leading_byte_width_2(c));
            assert((0xC0u8 | ((c >> 6) & 0x1F) as u8) != 46) by (bit_vector);
            assert(c != 46);
        } else if vstd::utf8::has_width_3_encoding(c) {
            assert(first[0] == vstd::utf8::leading_byte_width_3(c));
            assert((0xE0u8 | ((c >> 12) & 0x0F) as u8) != 46) by (bit_vector);
            assert(c != 46);
        } else {
            assert(first[0] == vstd::utf8::leading_byte_width_4(c));
            assert((0xF0u8 | ((c >> 18) & 0x7) as u8) != 46) by (bit_vector);
            assert(c != 46);
        }
        assert(c == 46 <==> chars[0] == '.') by {
            if c == 46 {
                vstd::utf8::char_u32_cast(chars[0], c);
                vstd::utf8::char_u32_cast('.', '.' as u32);
            }
        }
    }
}

} // verus!
