//! Recognising image files by their name, and building the list of images
//! to show from the paths given on the command line.
use vstd::prelude::*;
use vstd::utf8::encode_utf8;

use crate::text::str_is;

verus! {

/// What `std::path::Path::file_name` gives for the path `path`, as text:
/// the final component, or `None` when the path ends in `..` or is a root.
pub uninterp spec fn path_file_name(path: Seq<char>) -> Option<Seq<char>>;

/// What `str::to_lowercase` gives for `s`.
pub uninterp spec fn lowercase(s: Seq<char>) -> Seq<char>;

/// The extension of a file name, as `std::path::Path::extension` documents
/// it: none without an embedded `.`, none when the only `.` leads the name,
/// otherwise the text after the final `.`.
pub open spec fn extension_of_file_name(name: Seq<char>) -> Option<Seq<char>> {
    if exists|i: int| 1 <= i < name.len() && name[i] == '.' {
        let last = choose|i: int|
            1 <= i < name.len() && name[i] == '.' && forall|j: int|
                i < j < name.len() ==> name[j] != '.';
        Some(name.subrange(last + 1, name.len() as int))
    } else {
        None
    }
}

/// The extension of the path `path`, as `std::path::Path::extension` gives it.
pub open spec fn path_extension(path: Seq<char>) -> Option<Seq<char>> {
    match path_file_name(path) {
        Some(name) => extension_of_file_name(name),
        None => None,
    }
}

/// `std::path::Path::file_name`, read back as text. The contract claims
/// only that the result is the named `path_file_name` of the argument; a
/// path given as `&str` is valid UTF-8, so its final component is too.
#[verifier::external_body]
fn file_name(path: &str) -> (r: Option<String>)
    ensures
        match r {
            Some(name) => path_file_name(path@) == Some(name@),
            None => path_file_name(path@) is None,
        },
{
    std::path::Path::new(path).file_name().and_then(|n| n.to_str()).map(|n| n.to_string())
}

/// The extension of `path`: the text after the last `.` of its file name,
/// when that `.` does not lead the name; the rule `Path::extension`
/// documents, taken from the file name.
pub(crate) fn extension(path: &str) -> (r: Option<String>)
    ensures
        match r {
            Some(ext) => path_extension(path@) == Some(ext@),
            None => path_extension(path@) is None,
        },
{
    let name = match file_name(path) {
        Some(n) => n,
        None => return None,
    };
    let s = name.as_str();
    let n: usize = s.unicode_len();
    let mut i: usize = n;
    while i > 1
        invariant
            n == s@.len(),
            s@ == name@,
            path_file_name(path@) == Some(name@),
            1 <= i <= n || (i == n && n <= 1),
            forall|j: int| i <= j < n ==> s@[j] != '.',
        decreases i,
    {
        if s.get_char(i - 1) == '.' {
            let last: usize = i - 1;
            let ext = s.substring_char(last + 1, n);
            proof {
                assert(name@[last as int] == '.');
                let c = choose|k: int|
                    1 <= k < name@.len() && name@[k] == '.' && forall|j: int|
                        k < j < name@.len() ==> name@[j] != '.';
                assert(c == last) by {
                    if c < last {
                    } else if c > last {
                    }
                }
                assert(ext@ =~= name@.subrange(last + 1, n as int));
            }
            return Some(ext.to_string());
        }
        i = i - 1;
    }
    None
}

/// Each ASCII capital turned into its small letter; any other character
/// kept.
pub open spec fn ascii_lowercase(s: Seq<char>) -> Seq<char> {
    Seq::new(
        s.len(),
        |i: int|
            if 'A' <= s[i] <= 'Z' {
                ((s[i] as u32) + 32) as char
            } else {
                s[i]
            },
    )
}

/// Every character is ASCII.
pub open spec fn is_ascii_text(s: Seq<char>) -> bool {
    forall|i: int| 0 <= i < s.len() ==> (s[i] as u32) < 128
}

/// `str::to_lowercase`. The contract claims that the result is the named
/// `lowercase` of the argument, and, for text of ASCII characters only,
/// what the Unicode lower-case mapping gives them: A to Z become a to z,
/// every other character stays (so the empty text stays empty). What it
/// does to other characters is left to the Unicode tables and not stated.
#[verifier::external_body]
fn to_lowercase(s: &str) -> (r: String)
    ensures
        r@ == lowercase(s@),
        is_ascii_text(s@) ==> r@ == ascii_lowercase(s@),
{
    s.to_lowercase()
}

/// The lower-case extensions that the viewer opens: those of the formats
/// it supports, and `svg`.
pub open spec fn is_image_extension(ext: Seq<char>) -> bool {
    ||| ext == seq!['p', 'n', 'g']
    ||| ext == seq!['j', 'p', 'g']
    ||| ext == seq!['j', 'p', 'e', 'g']
    ||| ext == seq!['g', 'i', 'f']
    ||| ext == seq!['b', 'm', 'p']
    ||| ext == seq!['t', 'i', 'f', 'f']
    ||| ext == seq!['t', 'i', 'f']
    ||| ext == seq!['w', 'e', 'b', 'p']
    ||| ext == seq!['i', 'c', 'o']
    ||| ext == seq!['p', 'p', 'm']
    ||| ext == seq!['p', 'g', 'm']
    ||| ext == seq!['p', 'b', 'm']
    ||| ext == seq!['p', 'n', 'm']
    ||| ext == seq!['s', 'v', 'g']
    ||| ext == seq!['t', 'g', 'a']
    ||| ext == seq!['a', 'v', 'i', 'f']
    ||| ext == seq!['q', 'o', 'i']
    ||| ext == seq!['h', 'd', 'r']
    ||| ext == seq!['e', 'x', 'r']
    ||| ext == seq!['d', 'd', 's']
    ||| ext == seq!['f', 'f']
}

/// A path names an image when its extension, lower-cased, is one the viewer
/// opens; a path without an extension is tested as the empty extension.
pub open spec fn is_image_path(path: Seq<char>) -> bool {
    is_image_extension(
        lowercase(
            match path_extension(path) {
                Some(ext) => ext,
                None => Seq::empty(),
            },
        ),
    )
}

/// A path is hidden when its file name starts with a `.`.
pub open spec fn is_hidden_path(path: Seq<char>) -> bool {
    match path_file_name(path) {
        Some(name) => name.len() > 0 && name[0] == '.',
        None => false,
    }
}

/// Whether the lower-case extension `ext` is one the viewer opens.
fn image_extension(ext: &str) -> (r: bool)
    ensures
        r == is_image_extension(ext@),
{
    proof {
        reveal_strlit("png");
        reveal_strlit("jpg");
        reveal_strlit("jpeg");
        reveal_strlit("gif");
        reveal_strlit("bmp");
        reveal_strlit("tiff");
        reveal_strlit("tif");
        reveal_strlit("webp");
        reveal_strlit("ico");
        reveal_strlit("ppm");
        reveal_strlit("pgm");
        reveal_strlit("pbm");
        reveal_strlit("pnm");
        reveal_strlit("svg");
        reveal_strlit("tga");
        reveal_strlit("avif");
        reveal_strlit("qoi");
        reveal_strlit("hdr");
        reveal_strlit("exr");
        reveal_strlit("dds");
        reveal_strlit("ff");
    }
    assert(seq!['p', 'n', 'g'] =~= "png"@);
    assert(seq!['j', 'p', 'g'] =~= "jpg"@);
    assert(seq!['j', 'p', 'e', 'g'] =~= "jpeg"@);
    assert(seq!['g', 'i', 'f'] =~= "gif"@);
    assert(seq!['b', 'm', 'p'] =~= "bmp"@);
    assert(seq!['t', 'i', 'f', 'f'] =~= "tiff"@);
    assert(seq!['t', 'i', 'f'] =~= "tif"@);
    assert(seq!['w', 'e', 'b', 'p'] =~= "webp"@);
    assert(seq!['i', 'c', 'o'] =~= "ico"@);
    assert(seq!['p', 'p', 'm'] =~= "ppm"@);
    assert(seq!['p', 'g', 'm'] =~= "pgm"@);
    assert(seq!['p', 'b', 'm'] =~= "pbm"@);
    assert(seq!['p', 'n', 'm'] =~= "pnm"@);
    assert(seq!['s', 'v', 'g'] =~= "svg"@);
    assert(seq!['t', 'g', 'a'] =~= "tga"@);
    assert(seq!['a', 'v', 'i', 'f'] =~= "avif"@);
    assert(seq!['q', 'o', 'i'] =~= "qoi"@);
    assert(seq!['h', 'd', 'r'] =~= "hdr"@);
    assert(seq!['e', 'x', 'r'] =~= "exr"@);
    assert(seq!['d', 'd', 's'] =~= "dds"@);
    assert(seq!['f', 'f'] =~= "ff"@);
    str_is(ext, "png") || str_is(ext, "jpg") || str_is(ext, "jpeg") || str_is(ext, "gif") || str_is(ext, "bmp") || str_is(ext, "tiff") || str_is(ext, "tif") || str_is(ext, "webp") || str_is(ext, "ico") || str_is(ext, "ppm") || str_is(ext, "pgm") || str_is(ext, "pbm") || str_is(ext, "pnm") || str_is(ext, "svg") || str_is(ext, "tga") || str_is(ext, "avif") || str_is(ext, "qoi") || str_is(ext, "hdr") || str_is(ext, "exr") || str_is(ext, "dds") || str_is(ext, "ff")
}

/// Whether `path` names an image file, judged by its extension alone.
pub fn is_image_file(path: &str) -> (r: bool)
    ensures
        r == is_image_path(path@),
        path_extension(path@) is None ==> !r,
        match path_extension(path@) {
            Some(ext) => is_ascii_text(ext) ==> r == is_image_extension(ascii_lowercase(ext)),
            None => true,
        },
{
    let ext = match extension(path) {
        Some(e) => e,
        None => String::new(),
    };
    let lower = to_lowercase(ext.as_str());
    proof {
        if path_extension(path@) is None {
            assert(lower@ =~= Seq::<char>::empty());
            assert(!is_image_extension(lower@)) by {
                assert(lower@.len() == 0);
            }
        }
    }
    image_extension(lower.as_str())
}

/// Whether `path` names a hidden file, one whose name starts with a `.`.
pub fn is_hidden_file(path: &str) -> (r: bool)
    ensures
        r == is_hidden_path(path@),
{
    match file_name(path) {
        Some(name) => {
            let s = name.as_str();
            s.unicode_len() > 0 && s.get_char(0) == '.'
        },
        None => false,
    }
}


/// `a` comes no later than `b` in lexicographic byte order, the order of
/// `[u8]` and `String`.
pub open spec fn bytes_le(a: Seq<u8>, b: Seq<u8>) -> bool
    decreases a.len(),
{
    if a.len() == 0 {
        true
    } else if b.len() == 0 {
        false
    } else if a[0] != b[0] {
        a[0] < b[0]
    } else {
        bytes_le(a.drop_first(), b.drop_first())
    }
}

/// The order of `String`: lexicographic over the UTF-8 bytes.
pub open spec fn string_le(a: String, b: String) -> bool {
    bytes_le(encode_utf8(a@), encode_utf8(b@))
}

/// The strings are in ascending order.
pub open spec fn sorted(s: Seq<String>) -> bool {
    forall|i: int, j: int| 0 <= i < j < s.len() ==> string_le(s[i], s[j])
}

/// Any two byte strings are ordered one way or the other.
pub proof fn lemma_bytes_le_total(a: Seq<u8>, b: Seq<u8>)
    ensures
        bytes_le(a, b) || bytes_le(b, a),
    decreases a.len(),
{
    if a.len() > 0 && b.len() > 0 && a[0] == b[0] {
        lemma_bytes_le_total(a.drop_first(), b.drop_first());
    }
}

/// The byte order is transitive.
pub proof fn lemma_bytes_le_transitive(a: Seq<u8>, b: Seq<u8>, c: Seq<u8>)
    requires
        bytes_le(a, b),
        bytes_le(b, c),
    ensures
        bytes_le(a, c),
    decreases a.len(),
{
    if a.len() > 0 && b.len() > 0 && c.len() > 0 && a[0] == b[0] && b[0] == c[0] {
        lemma_bytes_le_transitive(a.drop_first(), b.drop_first(), c.drop_first());
    }
}

/// Compares two strings in the order of `String`.
fn string_le_exec(a: &String, b: &String) -> (r: bool)
    ensures
        r == string_le(*a, *b),
{
    let x = a.as_str().as_bytes();
    let y = b.as_str().as_bytes();
    let ghost xs = x@;
    let ghost ys = y@;
    assert(xs == encode_utf8(a@));
    assert(ys == encode_utf8(b@));
    let mut i: usize = 0;
    assert(xs.skip(0) =~= xs);
    assert(ys.skip(0) =~= ys);
    while i < x.len() && i < y.len()
        invariant
            x@ == xs,
            y@ == ys,
            xs == encode_utf8(a@),
            ys == encode_utf8(b@),
            i <= xs.len(),
            i <= ys.len(),
            bytes_le(xs, ys) == bytes_le(xs.skip(i as int), ys.skip(i as int)),
        decreases xs.len() - i,
    {
        assert(xs.skip(i as int).len() > 0 && ys.skip(i as int).len() > 0);
        assert(xs.skip(i as int)[0] == xs[i as int]);
        assert(ys.skip(i as int)[0] == ys[i as int]);
        if x[i] != y[i] {
            return x[i] < y[i];
        }
        assert(xs.skip(i as int).drop_first() =~= xs.skip(i + 1));
        assert(ys.skip(i as int).drop_first() =~= ys.skip(i + 1));
        i = i + 1;
    }
    assert(i == xs.len() ==> xs.skip(i as int).len() == 0);
    assert(i < xs.len() ==> xs.skip(i as int).len() > 0 && ys.skip(i as int).len() == 0);
    i == x.len()
}

/// Sorts the strings in ascending order, as `Vec::sort` does for `String`.
fn sort_strings(v: Vec<String>) -> (r: Vec<String>)
    ensures
        sorted(r@),
        r@.to_multiset() == v@.to_multiset(),
{
    broadcast use vstd::seq_lib::group_to_multiset_ensures;

    let mut rest = v;
    let mut out: Vec<String> = Vec::new();
    let ghost orig = rest@;
    while rest.len() > 0
        invariant
            sorted(out@),
            forall|i: int, j: int|
                0 <= i < out@.len() && 0 <= j < rest@.len() ==> string_le(out@[i], rest@[j]),
            out@.to_multiset().add(rest@.to_multiset()) == orig.to_multiset(),
        decreases rest@.len(),
    {
        let mut m: usize = 0;
        let mut j: usize = 1;
        proof {
            lemma_bytes_le_total(encode_utf8(rest@[0]@), encode_utf8(rest@[0]@));
        }
        while j < rest.len()
            invariant
                0 <= m < rest@.len(),
                1 <= j <= rest@.len(),
                forall|k: int| 0 <= k < j ==> string_le(rest@[m as int], rest@[k]),
            decreases rest@.len() - j,
        {
            proof {
                lemma_bytes_le_total(encode_utf8(rest@[m as int]@), encode_utf8(rest@[m as int]@));
            }
            if !string_le_exec(&rest[m], &rest[j]) {
                proof {
                    let a = encode_utf8(rest@[j as int]@);
                    let b = encode_utf8(rest@[m as int]@);
                    lemma_bytes_le_total(a, b);
                    assert forall|k: int| 0 <= k < j + 1 implies string_le(
                        rest@[j as int],
                        rest@[k],
                    ) by {
                        if k < j {
                            lemma_bytes_le_transitive(a, b, encode_utf8(rest@[k]@));
                        } else {
                            lemma_bytes_le_total(a, a);
                        }
                    }
                }
                m = j;
            }
            j = j + 1;
        }
        proof {
            lemma_bytes_le_total(encode_utf8(rest@[m as int]@), encode_utf8(rest@[m as int]@));
        }
        let ghost before_rest = rest@;
        let ghost before_out = out@;
        let x = rest.remove(m);
        out.push(x);
        proof {
            assert(out@ == before_out.push(x));
            assert(rest@ == before_rest.remove(m as int));
            before_out.to_multiset_ensures();
            before_rest.to_multiset_ensures();
            assert forall|i: int, j: int| 0 <= i < j < out@.len() implies string_le(
                out@[i],
                out@[j],
            ) by {
                if j == out@.len() - 1 {
                    assert(out@[j] == before_rest[m as int]);
                    assert(out@[i] == before_out[i]);
                } else {
                    assert(out@[i] == before_out[i]);
                    assert(out@[j] == before_out[j]);
                }
            }
            assert forall|i: int, j: int|
                0 <= i < out@.len() && 0 <= j < rest@.len() implies string_le(
                out@[i],
                rest@[j],
            ) by {
                let j1 = if j < m {
                    j
                } else {
                    j + 1
                };
                assert(rest@[j] == before_rest[j1]);
                if i == out@.len() - 1 {
                } else {
                    assert(out@[i] == before_out[i]);
                }
            }
            assert(out@.to_multiset() == before_out.to_multiset().insert(x));
            assert(rest@.to_multiset() == before_rest.to_multiset().remove(x));
            assert(out@.to_multiset().add(rest@.to_multiset()) =~= before_out.to_multiset().add(
                before_rest.to_multiset(),
            ));
        }
    }
    proof {
        assert(rest@.to_multiset() =~= vstd::multiset::Multiset::empty());
        assert(out@.to_multiset().add(rest@.to_multiset()) =~= out@.to_multiset());
    }
    out
}

/// The entries of a directory that the viewer shows: images that are not
/// hidden, in listing order.
pub open spec fn image_entries(entries: Seq<String>) -> Seq<String> {
    entries.filter(|s: String| is_image_path(s@) && !is_hidden_path(s@))
}

/// `out` is the list of images to show for the command line paths `paths`,
/// where `listing` holds the directory's entries when the only path is a
/// directory: then the directory's images in ascending order; a single
/// other path alone; several paths as given.
pub open spec fn collected_paths(
    paths: Seq<String>,
    listing: Option<Seq<String>>,
    out: Seq<String>,
) -> bool {
    if paths.len() == 1 {
        match listing {
            Some(entries) => sorted(out) && out.to_multiset() == image_entries(
                entries,
            ).to_multiset(),
            None => out == paths,
        }
    } else {
        out == paths
    }
}

/// The directory's images that are not hidden, in listing order.
fn select_images(entries: Vec<String>) -> (r: Vec<String>)
    ensures
        r@ == image_entries(entries@),
{
    let mut out: Vec<String> = Vec::new();
    let mut i: usize = 0;
    let n: usize = entries.len();
    while i < n
        invariant
            n == entries@.len(),
            i <= n,
            out@ == image_entries(entries@.take(i as int)),
        decreases n - i,
    {
        proof {
            reveal_with_fuel(Seq::<String>::filter, 1);
            assert(entries@.take(i + 1).drop_last() =~= entries@.take(i as int));
        }
        let path = entries[i].as_str();
        if is_image_file(path) && !is_hidden_file(path) {
            out.push(entries[i].clone());
        }
        i = i + 1;
    }
    assert(entries@.take(n as int) =~= entries@);
    out
}

/// The list of images to show for the command line paths. `listing` holds
/// the entries of the directory when exactly one path is given and it is a
/// directory (empty when it could not be read), and is `None` otherwise.
pub fn collect_paths(paths: Vec<String>, listing: Option<Vec<String>>) -> (r: Vec<String>)
    ensures
        collected_paths(
            paths@,
            match listing {
                Some(l) => Some(l@),
                None => None,
            },
            r@,
        ),
{
    if paths.len() == 1 {
        match listing {
            Some(entries) => {
                let images = select_images(entries);
                sort_strings(images)
            },
            None => {
                let mut r: Vec<String> = Vec::new();
                r.push(paths[0].clone());
                assert(r@ =~= paths@);
                r
            },
        }
    } else {
        paths
    }
}

} // verus!
