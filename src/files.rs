//! Which files the viewer browses: those whose extension names a known image format.
use vstd::prelude::*;
use vstd::string::{StrSliceExecFns, StringExecFns};

verus! {

/// The lowercase image extensions the viewer recognises.
pub open spec fn image_extensions() -> Seq<Seq<char>> {
    seq![
        "png"@, "jpg"@, "jpeg"@, "gif"@, "bmp"@, "tiff"@, "tif"@, "webp"@, "ico"@, "pnm"@,
        "pbm"@, "pgm"@, "ppm"@, "qoi"@, "tga"@,
    ]
}

/// Index of the last `.` in `s`, or -1 when there is none.
pub open spec fn last_dot(s: Seq<char>) -> int
    decreases s.len(),
{
    if s.len() == 0 {
        -1
    } else if s.last() == '.' {
        s.len() - 1
    } else {
        last_dot(s.drop_last())
    }
}

/// The extension of a file name: what follows its last `.`, unless there is no
/// `.`, the only `.` leads the name, or the name is `..`.
pub open spec fn extension_of(name: Seq<char>) -> Option<Seq<char>> {
    let i = last_dot(name);
    if name == seq!['.', '.'] || i <= 0 {
        None
    } else {
        Some(name.subrange(i + 1, name.len() as int))
    }
}

/// The lowercase form of `s` that `str::to_lowercase` gives.
pub uninterp spec fn lower_of(s: Seq<char>) -> Seq<char>;

/// Relies on `str::to_lowercase`: the result depends on the characters alone.
#[verifier::external_body]
fn lowercase(s: &str) -> (r: String)
    ensures
        r@ == lower_of(s@),
{
    s.to_lowercase()
}

/// Whether an already lowercased extension is one of the known image extensions.
pub fn is_image_extension(lower: &str) -> (r: bool)
    ensures
        r == image_extensions().contains(lower@),
{
    let known: Vec<&'static str> = vec![
        "png", "jpg", "jpeg", "gif", "bmp", "tiff", "tif", "webp", "ico", "pnm",
        "pbm", "pgm", "ppm", "qoi", "tga",
    ];
    let ghost exts = image_extensions();
    assert(known@.len() == exts.len());
    assert(forall|k: int| 0 <= k < exts.len() ==> (#[trigger] known@[k])@ == exts[k]);
    let target = String::from_str(lower);
    let mut i: usize = 0;
    while i < known.len()
        invariant
            exts == image_extensions(),
            known@.len() == exts.len(),
            forall|k: int| 0 <= k < exts.len() ==> (#[trigger] known@[k])@ == exts[k],
            target@ == lower@,
            i <= known@.len(),
            forall|k: int| 0 <= k < i ==> exts[k] != lower@,
        decreases known@.len() - i,
    {
        let candidate = String::from_str(known[i]);
        if candidate == target {
            proof {
                assert(exts[i as int] == lower@);
                assert(exts.contains(lower@));
            }
            return true;
        }
        i += 1;
    }
    false
}

proof fn lemma_last_dot_bounds(s: Seq<char>)
    ensures
        -1 <= last_dot(s) < s.len(),
    decreases s.len(),
{
    if s.len() > 0 && s.last() != '.' {
        lemma_last_dot_bounds(s.drop_last());
    }
}

fn find_last_dot(s: &str) -> (r: i64)
    requires
        s@.len() <= i64::MAX,
    ensures
        r == last_dot(s@),
{
    let n: usize = s.unicode_len();
    let mut last: i64 = -1;
    let mut i: usize = 0;
    while i < n
        invariant
            n == s@.len() <= i64::MAX,
            i <= n,
            last == last_dot(s@.take(i as int)),
        decreases n - i,
    {
        proof {
            assert(s@.take(i as int + 1).drop_last() =~= s@.take(i as int));
        }
        if s.get_char(i) == '.' {
            last = i as i64;
        }
        i += 1;
    }
    proof {
        assert(s@.take(n as int) =~= s@);
    }
    last
}

/// Whether `file_name` has the extension of a known image format, compared
/// without regard to case.
pub fn is_image_file(file_name: &str) -> (r: bool)
    requires
        file_name@.len() <= i64::MAX,
    ensures
        r == match extension_of(file_name@) {
            None => false,
            Some(e) => image_extensions().contains(lower_of(e)),
        },
{
    let n: usize = file_name.unicode_len();
    let i: i64 = find_last_dot(file_name);
    proof {
        lemma_last_dot_bounds(file_name@);
    }
    let dots: bool = n == 2 && file_name.get_char(0) == '.' && file_name.get_char(1) == '.';
    proof {
        if file_name@ == seq!['.', '.'] {
            assert(file_name@[0] == '.' && file_name@[1] == '.');
        }
        if dots {
            assert(file_name@ =~= seq!['.', '.']);
        }
    }
    if dots || i <= 0 {
        return false;
    }
    let ext: &str = file_name.substring_char(i as usize + 1, n);
    let lower = lowercase(ext);
    is_image_extension(lower.as_str())
}

/// `c` with ASCII capitals made small; every other character kept.
pub open spec fn fold_ascii(c: char) -> char {
    if 'A' <= c && c <= 'Z' { (((c as u8) + 32) as u8) as char } else { c }
}

/// The key by which file names are ordered: the name with ASCII capitals made small.
pub open spec fn name_key(s: Seq<char>) -> Seq<char> {
    s.map_values(|c: char| fold_ascii(c))
}

/// Lexicographic order of characters by code point; a prefix comes first.
pub open spec fn key_le(a: Seq<char>, b: Seq<char>) -> bool
    decreases a.len(),
{
    if a.len() == 0 {
        true
    } else if b.len() == 0 {
        false
    } else if a[0] != b[0] {
        a[0] < b[0]
    } else {
        key_le(a.drop_first(), b.drop_first())
    }
}

proof fn lemma_key_le_total(a: Seq<char>, b: Seq<char>)
    ensures
        key_le(a, b) || key_le(b, a),
    decreases a.len(),
{
    if a.len() > 0 && b.len() > 0 && a[0] == b[0] {
        lemma_key_le_total(a.drop_first(), b.drop_first());
    }
}

proof fn lemma_key_le_trans(a: Seq<char>, b: Seq<char>, c: Seq<char>)
    requires
        key_le(a, b),
        key_le(b, c),
    ensures
        key_le(a, c),
    decreases a.len(),
{
    if a.len() > 0 && b.len() > 0 && c.len() > 0 && a[0] == b[0] && b[0] == c[0] {
        lemma_key_le_trans(a.drop_first(), b.drop_first(), c.drop_first());
    }
}

fn key_of(s: &str) -> (r: Vec<char>)
    ensures
        r@ == name_key(s@),
{
    let n: usize = s.unicode_len();
    let mut r: Vec<char> = Vec::new();
    let mut i: usize = 0;
    while i < n
        invariant
            n == s@.len(),
            i <= n,
            r@ == name_key(s@.take(i as int)),
        decreases n - i,
    {
        let c: char = s.get_char(i);
        let f: char = if 'A' <= c && c <= 'Z' { (((c as u8) + 32) as u8) as char } else { c };
        r.push(f);
        i += 1;
        proof {
            assert(r@ =~= name_key(s@.take(i as int)));
        }
    }
    proof {
        assert(s@.take(n as int) =~= s@);
    }
    r
}

fn key_le_exec(a: &Vec<char>, b: &Vec<char>) -> (r: bool)
    ensures
        r == key_le(a@, b@),
{
    let mut i: usize = 0;
    proof {
        assert(a@.skip(0) =~= a@);
        assert(b@.skip(0) =~= b@);
    }
    while i < a.len() && i < b.len()
        invariant
            i <= a@.len(),
            i <= b@.len(),
            key_le(a@, b@) == key_le(a@.skip(i as int), b@.skip(i as int)),
        decreases a@.len() - i,
    {
        if a[i] != b[i] {
            return a[i] < b[i];
        }
        proof {
            assert(a@.skip(i as int).drop_first() =~= a@.skip(i as int + 1));
            assert(b@.skip(i as int).drop_first() =~= b@.skip(i as int + 1));
        }
        i += 1;
    }
    i == a.len()
}

/// Whether `order` lists the indices of `names` sorted by `name_key`.
pub open spec fn sorted_by_key(names: Seq<String>, order: Seq<usize>) -> bool {
    forall|i: int, j: int| 0 <= i < j < order.len()
        ==> key_le(name_key(names[order[i] as int]@), name_key(names[order[j] as int]@))
}

/// Whether names with equal keys appear in `order` as they do in `names`.
pub open spec fn stable_by_key(names: Seq<String>, order: Seq<usize>) -> bool {
    forall|i: int, j: int| 0 <= i < j < order.len()
        && key_le(name_key(names[order[j] as int]@), name_key(names[order[i] as int]@))
        ==> order[i] < order[j]
}

/// The order in which to browse `names`: every index once, sorted by the names
/// with ASCII capitals made small; equal keys keep their order in `names`.
pub fn sorted_order(names: &Vec<String>) -> (r: Vec<usize>)
    ensures
        r@.len() == names@.len(),
        r@.no_duplicates(),
        forall|i: int| 0 <= i < r@.len() ==> r@[i] < names@.len(),
        sorted_by_key(names@, r@),
        stable_by_key(names@, r@),
{
    let mut keys: Vec<Vec<char>> = Vec::new();
    let mut k: usize = 0;
    while k < names.len()
        invariant
            k <= names@.len(),
            keys@.len() == k,
            forall|q: int| 0 <= q < k ==> (#[trigger] keys@[q])@ == name_key(names@[q]@),
        decreases names@.len() - k,
    {
        keys.push(key_of(names[k].as_str()));
        k += 1;
    }
    let mut order: Vec<usize> = Vec::new();
    let mut n: usize = 0;
    while n < names.len()
        invariant
            n <= names@.len(),
            keys@.len() == names@.len(),
            forall|q: int| 0 <= q < names@.len() ==> (#[trigger] keys@[q])@ == name_key(names@[q]@),
            order@.len() == n,
            order@.no_duplicates(),
            forall|i: int| 0 <= i < order@.len() ==> order@[i] < n,
            sorted_by_key(names@, order@),
            stable_by_key(names@, order@),
        decreases names@.len() - n,
    {
        let ghost kn = name_key(names@[n as int]@);
        let mut p: usize = 0;
        while p < order.len() && key_le_exec(&keys[order[p]], &keys[n])
            invariant
                n < names@.len(),
                keys@.len() == names@.len(),
                forall|q: int| 0 <= q < names@.len() ==> (#[trigger] keys@[q])@ == name_key(names@[q]@),
                kn == name_key(names@[n as int]@),
                p <= order@.len(),
                forall|i: int| 0 <= i < order@.len() ==> order@[i] < n,
                forall|i: int| 0 <= i < p ==> key_le(name_key(names@[order@[i] as int]@), kn),
            decreases order@.len() - p,
        {
            p += 1;
        }
        let ghost old_order = order@;
        proof {
            if p < old_order.len() {
                lemma_key_le_total(name_key(names@[old_order[p as int] as int]@), kn);
            }
            assert forall|i: int, j: int| 0 <= i < j < old_order.len() + 1 implies
                key_le(name_key(names@[old_order.insert(p as int, n)[i] as int]@),
                    name_key(names@[old_order.insert(p as int, n)[j] as int]@)) by {
                let s = old_order.insert(p as int, n);
                if i < p && j == p {
                } else if i == p && j > p {
                    if j - 1 > p {
                        lemma_key_le_trans(kn, name_key(names@[old_order[p as int] as int]@),
                            name_key(names@[old_order[j - 1] as int]@));
                    }
                } else if i < p && j > p {
                } else {
                }
            }
            assert forall|i: int, j: int| 0 <= i < j < old_order.len() + 1
                && key_le(name_key(names@[old_order.insert(p as int, n)[j] as int]@),
                    name_key(names@[old_order.insert(p as int, n)[i] as int]@))
                implies old_order.insert(p as int, n)[i] < old_order.insert(p as int, n)[j] by {
                let s = old_order.insert(p as int, n);
                if i == p && j > p {
                    // Everything after the insertion point has a key strictly above `kn`.
                    let kp = name_key(names@[old_order[p as int] as int]@);
                    let kj = name_key(names@[old_order[j - 1] as int]@);
                    if j - 1 > p {
                        lemma_key_le_trans(kp, kj, kn);
                    }
                    assert(false);
                }
            }
        }
        order.insert(p, n);
        proof {
            assert forall|i: int, j: int| 0 <= i < j < order@.len() implies order@[i] != order@[j] by {
                if i != p as int && j != p as int {
                    let i0 = if i < p { i } else { i - 1 };
                    let j0 = if j < p { j } else { j - 1 };
                    assert(old_order[i0] != old_order[j0]);
                }
            }
        }
        n += 1;
    }
    order
}

} // verus!
