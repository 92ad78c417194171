//! Output file naming and the output/source extension guard.
//!
//! An output file is named `{field_token}_{corpus_stem}_{index}_{source_file_name}`,
//! with the index rendered as a plain decimal integer. Paths are treated as
//! `/`-separated text: the file name is what follows the last separator
//! (none when that is empty, `.` or `..`), and the extension is what follows
//! the last dot of the file name, provided that dot is not its first
//! character.

use vstd::prelude::*;
use vstd::string::StrSliceExecFns;
use vstd::string::StringExecFns;
use crate::fields::FieldSelector;
use crate::fields::field_token;
use crate::fields::spec_field_token;
use crate::strutil::dec_str;
use crate::strutil::str_eq;
use crate::strutil::u64_to_dec;

verus! {

/// Why an output path is rejected before any mutation or file access.
#[derive(Clone, Copy, Debug, PartialEq, Eq, Structural)]
pub enum NamingError {
    /// The output extension differs from the source asset's extension.
    ExtensionMismatch,
    /// The output path has no file-name component.
    MissingFileName,
    /// The output file name has no extension.
    MissingExtension,
}

pub open spec fn has_slash(p: Seq<char>) -> bool {
    exists|i: int| 0 <= i < p.len() && p[i] == '/'
}

/// The text after the last `/`, the whole text when there is none.
pub open spec fn tail_after_slash(p: Seq<char>) -> Seq<char>
    decreases p.len(),
{
    if has_slash(p) {
        tail_after_slash(p.skip(1))
    } else {
        p
    }
}

/// The file-name component: the text after the last separator, unless that
/// is empty or one of the relative-directory names `.` and `..`.
pub open spec fn spec_file_name(p: Seq<char>) -> Option<Seq<char>> {
    let name = tail_after_slash(p);
    if name.len() == 0 || name == "."@ || name == ".."@ {
        None
    } else {
        Some(name)
    }
}

/// The index of the dot splitting stem from extension, or -1: the last dot
/// of the name, except that a dot at the very start never counts.
pub open spec fn split_dot(name: Seq<char>) -> int
    decreases name.len(),
{
    if name.len() <= 1 {
        -1
    } else if name.last() == '.' {
        name.len() - 1
    } else {
        split_dot(name.drop_last())
    }
}

/// The extension of the path's file name, without the dot.
pub open spec fn spec_extension(p: Seq<char>) -> Option<Seq<char>> {
    match spec_file_name(p) {
        Option::None => Option::None,
        Option::Some(name) => {
            let d = split_dot(name);
            if d == -1 {
                Option::None
            } else {
                Option::Some(name.skip(d + 1))
            }
        },
    }
}

/// The path's file name with its extension and the dot removed.
pub open spec fn spec_file_stem(p: Seq<char>) -> Option<Seq<char>> {
    match spec_file_name(p) {
        Option::None => Option::None,
        Option::Some(name) => {
            let d = split_dot(name);
            if d == -1 {
                Option::Some(name)
            } else {
                Option::Some(name.take(d))
            }
        },
    }
}

proof fn lemma_tail_after_slash_found(p: Seq<char>, k: int)
    requires
        0 <= k < p.len(),
        p[k] == '/',
        forall|l: int| k < l < p.len() ==> p[l] != '/',
    ensures
        tail_after_slash(p) == p.skip(k + 1),
    decreases k,
{
    assert(has_slash(p));
    if k == 0 {
        assert(!has_slash(p.skip(1))) by {
            assert forall|i: int| !(0 <= i < p.skip(1).len() && p.skip(1)[i] == '/') by {
                if 0 <= i < p.skip(1).len() {
                    assert(p.skip(1)[i] == p[i + 1]);
                }
            }
        }
        assert(tail_after_slash(p.skip(1)) == p.skip(1));
        assert(tail_after_slash(p) == p.skip(1));
    } else {
        assert(p.skip(1)[k - 1] == p[k]);
        assert forall|l: int| k - 1 < l < p.skip(1).len() implies p.skip(1)[l] != '/' by {
            assert(p.skip(1)[l] == p[l + 1]);
        }
        lemma_tail_after_slash_found(p.skip(1), k - 1);
        assert(p.skip(1).skip(k) =~= p.skip(k + 1));
    }
}

/// Finds the character position right after the last `/`, 0 when none.
fn name_start(p: &str) -> (r: usize)
    ensures
        r <= p@.len(),
        tail_after_slash(p@) == p@.skip(r as int),
{
    let n = p.unicode_len();
    let mut j: usize = n;
    while j > 0
        invariant
            j <= n,
            n == p@.len(),
            forall|l: int| j <= l < n ==> p@[l] != '/',
        decreases j,
    {
        if p.get_char(j - 1) == '/' {
            proof {
                lemma_tail_after_slash_found(p@, j - 1);
            }
            return j;
        }
        j = j - 1;
    }
    proof {
        assert(!has_slash(p@));
        assert(p@.skip(0) =~= p@);
    }
    0
}

/// The file-name component of a path, as the library defines it.
pub fn file_name_part(p: &str) -> (r: Option<String>)
    ensures
        r.deep_view() == spec_file_name(p@),
{
    let n = p.unicode_len();
    let start = name_start(p);
    let name = p.substring_char(start, n);
    proof {
        assert(name@ =~= tail_after_slash(p@));
        reveal_strlit(".");
        reveal_strlit("..");
    }
    if name.unicode_len() == 0 || str_eq(name, ".") || str_eq(name, "..") {
        None
    } else {
        Some(name.to_owned())
    }
}

proof fn lemma_split_dot_found(name: Seq<char>, k: int)
    requires
        1 <= k < name.len(),
        name[k] == '.',
        forall|l: int| k < l < name.len() ==> name[l] != '.',
    ensures
        split_dot(name) == k,
    decreases name.len(),
{
    if k == name.len() - 1 {
    } else {
        assert(name.last() != '.');
        assert forall|l: int| k < l < name.drop_last().len() implies name.drop_last()[l] != '.' by {
            assert(name.drop_last()[l] == name[l]);
        }
        lemma_split_dot_found(name.drop_last(), k);
    }
}

proof fn lemma_split_dot_missing(name: Seq<char>)
    requires
        forall|l: int| 1 <= l < name.len() ==> name[l] != '.',
    ensures
        split_dot(name) == -1,
    decreases name.len(),
{
    if name.len() > 1 {
        assert(name.last() != '.');
        assert forall|l: int| 1 <= l < name.drop_last().len() implies name.drop_last()[l] != '.' by {
            assert(name.drop_last()[l] == name[l]);
        }
        lemma_split_dot_missing(name.drop_last());
    }
}

/// Finds the stem/extension split of a file name already extracted from a
/// path: the position after the extension dot, or 0 when there is none.
fn dot_split_exec(name: &str) -> (r: usize)
    ensures
        r == 0 ==> split_dot(name@) == -1,
        r > 0 ==> split_dot(name@) == r - 1 && 1 <= r - 1 < name@.len(),
{
    let n = name.unicode_len();
    let mut j: usize = n;
    while j > 1
        invariant
            j <= n,
            n == name@.len(),
            forall|l: int| j <= l < n ==> name@[l] != '.',
        decreases j,
    {
        if name.get_char(j - 1) == '.' {
            proof {
                lemma_split_dot_found(name@, j - 1);
            }
            return j;
        }
        j = j - 1;
    }
    proof {
        lemma_split_dot_missing(name@);
    }
    0
}

/// The extension of a path's file name, as the library defines it.
pub fn extension_part(p: &str) -> (r: Option<String>)
    ensures
        r.deep_view() == spec_extension(p@),
{
    match file_name_part(p) {
        None => None,
        Some(name) => {
            let d = dot_split_exec(name.as_str());
            if d == 0 {
                None
            } else {
                let n = name.as_str().unicode_len();
                Some(name.as_str().substring_char(d, n).to_owned())
            }
        },
    }
}

/// The stem of a path's file name, as the library defines it.
pub fn file_stem_part(p: &str) -> (r: Option<String>)
    ensures
        r.deep_view() == spec_file_stem(p@),
{
    match file_name_part(p) {
        None => None,
        Some(name) => {
            let d = dot_split_exec(name.as_str());
            if d == 0 {
                Some(name)
            } else {
                Some(name.as_str().substring_char(0, d - 1).to_owned())
            }
        },
    }
}

/// The fixed output-name format over already-extracted parts.
pub open spec fn spec_compose_output_name(
    f: FieldSelector,
    corpus_stem: Seq<char>,
    index: u64,
    source_name: Seq<char>,
) -> Seq<char> {
    spec_field_token(f) + "_"@ + corpus_stem + "_"@ + dec_str(index as nat) + "_"@ + source_name
}

/// Builds `{field_token}_{corpus_stem}_{index}_{source_file_name}` from
/// already-extracted parts.
pub fn compose_output_name(
    f: FieldSelector,
    corpus_stem: &str,
    index: u64,
    source_name: &str,
) -> (r: String)
    ensures
        r@ == spec_compose_output_name(f, corpus_stem@, index, source_name@),
{
    let mut out = field_token(f).to_owned();
    out.append("_");
    out.append(corpus_stem);
    out.append("_");
    let dec = u64_to_dec(index);
    out.append(dec.as_str());
    out.append("_");
    out.append(source_name);
    out
}

/// The output file name for one corpus line: the field token, the corpus
/// file's stem, the 0-based line index and the source asset's full file
/// name, joined by underscores. `None` when the corpus path has no file
/// stem or the source path has no file name.
pub open spec fn spec_output_file_name(
    f: FieldSelector,
    corpus_path: Seq<char>,
    index: u64,
    source_path: Seq<char>,
) -> Option<Seq<char>> {
    match (spec_file_stem(corpus_path), spec_file_name(source_path)) {
        (Option::Some(stem), Option::Some(name)) => Option::Some(
            spec_compose_output_name(f, stem, index, name),
        ),
        _ => Option::None,
    }
}

/// Derives the output file name from the raw inputs; a pure function of its
/// arguments.
pub fn output_file_name(
    f: FieldSelector,
    corpus_path: &str,
    index: u64,
    source_path: &str,
) -> (r: Option<String>)
    ensures
        r.deep_view() == spec_output_file_name(f, corpus_path@, index, source_path@),
{
    match (file_stem_part(corpus_path), file_name_part(source_path)) {
        (Some(stem), Some(name)) => Some(
            compose_output_name(f, stem.as_str(), index, name.as_str()),
        ),
        _ => None,
    }
}

/// Law (collision awareness): within one run — one field, one corpus, one
/// source asset — different corpus lines always get different output file
/// names, so no line can overwrite another's artifact.
pub proof fn lemma_output_names_distinct(
    f: FieldSelector,
    corpus_stem: Seq<char>,
    i1: u64,
    i2: u64,
    source_name: Seq<char>,
)
    requires
        i1 != i2,
    ensures
        spec_compose_output_name(f, corpus_stem, i1, source_name) != spec_compose_output_name(
            f,
            corpus_stem,
            i2,
            source_name,
        ),
{
    let n1 = spec_compose_output_name(f, corpus_stem, i1, source_name);
    let n2 = spec_compose_output_name(f, corpus_stem, i2, source_name);
    let head = spec_field_token(f) + "_"@ + corpus_stem + "_"@;
    let tail = "_"@ + source_name;
    let d1 = dec_str(i1 as nat);
    let d2 = dec_str(i2 as nat);
    assert(n1 =~= head + d1 + tail);
    assert(n2 =~= head + d2 + tail);
    if n1 == n2 {
        assert(d1.len() == d2.len());
        assert forall|j: int| 0 <= j < d1.len() implies d1[j] == d2[j] by {
            assert(n1[head.len() + j] == d1[j]);
            assert(n2[head.len() + j] == d2[j]);
        }
        assert(d1 =~= d2);
        crate::strutil::lemma_dec_str_injective(i1 as nat, i2 as nat);
        assert(false);
    }
}

fn opt_string_eq(a: &Option<String>, b: &Option<String>) -> (r: bool)
    ensures
        r == (a.deep_view() == b.deep_view()),
{
    match (a, b) {
        (Some(x), Some(y)) => {
            let e = str_eq(x.as_str(), y.as_str());
            proof {
                if x@ == y@ {
                    assert(a.deep_view() =~= b.deep_view());
                }
            }
            e
        },
        (None, None) => true,
        _ => false,
    }
}

/// The guard that runs before any file is read or written: the output path
/// must carry a file name and an extension, and that extension must equal
/// the source asset's. The extension comparison is reported first.
pub fn check_output_paths(output_path: &str, source_path: &str) -> (r: Result<(), NamingError>)
    ensures
        r == Err::<(), NamingError>(NamingError::ExtensionMismatch) <==> spec_extension(
            output_path@,
        ) != spec_extension(source_path@),
        r == Err::<(), NamingError>(NamingError::MissingFileName) <==> (spec_extension(
            output_path@,
        ) == spec_extension(source_path@) && spec_file_name(output_path@) is None),
        r == Err::<(), NamingError>(NamingError::MissingExtension) <==> (spec_extension(
            output_path@,
        ) == spec_extension(source_path@) && spec_file_name(output_path@) is Some
            && spec_extension(output_path@) is None),
        r is Ok <==> (spec_extension(output_path@) == spec_extension(source_path@)
            && spec_file_name(output_path@) is Some && spec_extension(output_path@) is Some),
{
    let out_ext = extension_part(output_path);
    let src_ext = extension_part(source_path);
    if !opt_string_eq(&out_ext, &src_ext) {
        return Err(NamingError::ExtensionMismatch);
    }
    let out_name = file_name_part(output_path);
    if out_name.is_none() {
        return Err(NamingError::MissingFileName);
    }
    if out_ext.is_none() {
        return Err(NamingError::MissingExtension);
    }
    Ok(())
}

/// Where a parent-ingredient path leads: a directory is read through its
/// `ingredient.json`, and the effective path is loaded as JSON exactly when
/// its extension is `json`.
pub open spec fn spec_ingredient_source(p: Seq<char>, is_directory: bool) -> (Seq<char>, bool) {
    let eff = if is_directory {
        if p.len() >= 1 && p[p.len() - 1] == '/' {
            p + "ingredient.json"@
        } else {
            p + "/ingredient.json"@
        }
    } else {
        p
    };
    (eff, spec_extension(eff) == Option::Some("json"@))
}

/// Resolves a parent-ingredient path: the effective file path and whether
/// it must be parsed as an ingredient-definition JSON file.
pub fn resolve_ingredient_source(p: &str, is_directory: bool) -> (r: (String, bool))
    ensures
        (r.0@, r.1) == spec_ingredient_source(p@, is_directory),
{
    let eff = if is_directory {
        let n = p.unicode_len();
        let mut e = p.to_owned();
        if n >= 1 && p.get_char(n - 1) == '/' {
            e.append("ingredient.json");
        } else {
            e.append("/ingredient.json");
        }
        e
    } else {
        p.to_owned()
    };
    let is_json = match extension_part(eff.as_str()) {
        Some(ext) => {
            proof {
                reveal_strlit("json");
            }
            str_eq(ext.as_str(), "json")
        },
        None => {
            proof {
                reveal_strlit("json");
            }
            false
        },
    };
    proof {
        if spec_extension(eff@) is Some {
            assert(spec_extension(eff@) == Option::Some("json"@) <==> (
            spec_extension(eff@)->Some_0 == "json"@));
        }
    }
    (eff, is_json)
}

} // verus!
