//! Hugging Face model inspection: repo ids, repository files, and the
//! decisions taken on Hub responses.
use vstd::prelude::*;
use vstd::slice::slice_subrange;
use vstd::string::*;
use vstd::utf8::*;
use crate::text::{
    chars_of, contains_text, contains_text_exec, has_suffix, has_suffix_exec, is_trimmed,
    lemma_trimmed_unchanged, same_text, strip_repeated, strip_window, to_lowercase, to_uppercase,
    trim, trim_class, trim_window, unicode_lower, unicode_upper, utf8_text, CharClass, has_prefix,
    lemma_trim_is_trimmed,
};

verus! {

// ------------------------------------------------------------------
// Repo ids
// ------------------------------------------------------------------
/// A repo id from user input: trimmed, without leading `https://`,
/// `http://`, `huggingface.co/`, `www.huggingface.co/`, `hf.co/` (each
/// repeated copy removed, in that order), and without leading or trailing
/// slashes.
pub open spec fn canonical_repo_id(s: Seq<char>) -> Seq<char> {
    trim_class(
        strip_repeated(
            strip_repeated(
                strip_repeated(
                    strip_repeated(strip_repeated(trim(s), "https://"@), "http://"@),
                    "huggingface.co/"@,
                ),
                "www.huggingface.co/"@,
            ),
            "hf.co/"@,
        ),
        CharClass::Slash,
    )
}

/// Accepts a repo id or a Hugging Face URL and returns the repo id.
pub fn normalize_repo_id(input: &str) -> (r: String)
    ensures
        r@ == canonical_repo_id(input@),
{
    let v = chars_of(input);
    assert(v@.subrange(0, v.len() as int) =~= input@);
    let (a, b) = trim_window(&v, 0, v.len(), CharClass::Whitespace);
    let a = strip_window(&v, a, b, &chars_of("https://"));
    let a = strip_window(&v, a, b, &chars_of("http://"));
    let a = strip_window(&v, a, b, &chars_of("huggingface.co/"));
    let a = strip_window(&v, a, b, &chars_of("www.huggingface.co/"));
    let a = strip_window(&v, a, b, &chars_of("hf.co/"));
    let (a, b) = trim_window(&v, a, b, CharClass::Slash);
    input.substring_char(a, b).to_owned()
}

/// A repo id never starts or ends with a slash.
pub proof fn law_repo_id_has_no_outer_slash(s: Seq<char>)
    ensures
        is_trimmed(canonical_repo_id(s), CharClass::Slash),
{
    let inner = strip_repeated(
        strip_repeated(
            strip_repeated(
                strip_repeated(strip_repeated(trim(s), "https://"@), "http://"@),
                "huggingface.co/"@,
            ),
            "www.huggingface.co/"@,
        ),
        "hf.co/"@,
    );
    lemma_trim_is_trimmed(inner, CharClass::Slash);
}

/// An id that is already plain (no outer white space or slashes, none of the
/// URL prefixes) is its own repo id.
pub proof fn law_plain_repo_id_unchanged(s: Seq<char>)
    requires
        is_trimmed(s, CharClass::Whitespace),
        is_trimmed(s, CharClass::Slash),
        !has_prefix(s, "https://"@),
        !has_prefix(s, "http://"@),
        !has_prefix(s, "huggingface.co/"@),
        !has_prefix(s, "www.huggingface.co/"@),
        !has_prefix(s, "hf.co/"@),
    ensures
        canonical_repo_id(s) == s,
{
    lemma_trimmed_unchanged(s, CharClass::Whitespace);
    lemma_trimmed_unchanged(s, CharClass::Slash);
}

/// A Hugging Face model URL gives back the plain repo id it links to:
/// `https://huggingface.co/<id>` is `<id>` for any id without outer white
/// space or slashes that does not itself start with a Hub host prefix.
pub proof fn law_repo_id_from_hub_url(r: Seq<char>)
    requires
        is_trimmed(r, CharClass::Whitespace),
        is_trimmed(r, CharClass::Slash),
        !has_prefix(r, "huggingface.co/"@),
        !has_prefix(r, "www.huggingface.co/"@),
        !has_prefix(r, "hf.co/"@),
    ensures
        canonical_repo_id("https://huggingface.co/"@ + r) == r,
{
    reveal_strlit("https://huggingface.co/");
    reveal_strlit("https://");
    reveal_strlit("http://");
    reveal_strlit("huggingface.co/");
    let s = "https://huggingface.co/"@ + r;
    assert(s[0] == 'h');
    if r.len() > 0 {
        assert(s.last() == r.last());
    }
    assert(is_trimmed(s, CharClass::Whitespace));
    lemma_trimmed_unchanged(s, CharClass::Whitespace);
    let s1 = s.skip(8);
    assert(s.take(8) =~= "https://"@);
    assert(s1 =~= "huggingface.co/"@ + r);
    assert(s1.take(8)[1] != "https://"@[1]);
    assert(s1.take(8) != "https://"@);
    assert(strip_repeated(s1, "https://"@) == s1);
    assert(0 < "https://"@.len() && "https://"@.len() <= s.len());
    assert(strip_repeated(s, "https://"@) == strip_repeated(s.skip(8), "https://"@));
    assert(strip_repeated(s, "https://"@) == s1);
    assert(s1.take(7)[1] != "http://"@[1]);
    assert(strip_repeated(s1, "http://"@) == s1);
    assert(s1.take(15) =~= "huggingface.co/"@);
    assert(s1.skip(15) =~= r);
    assert(strip_repeated(r, "huggingface.co/"@) == r);
    assert(strip_repeated(s1, "huggingface.co/"@) == strip_repeated(s1.skip(15), "huggingface.co/"@));
    assert(strip_repeated(s1, "huggingface.co/"@) == r);
    lemma_trimmed_unchanged(r, CharClass::Slash);
}

/// Where the last path segment of `s[..j]` starts.
pub open spec fn segment_start(s: Seq<char>, j: int) -> int
    decreases j,
{
    if j > 0 && s[j - 1] != '/' {
        segment_start(s, j - 1)
    } else {
        j
    }
}

/// The text after the last `/` (all of it when there is none).
pub open spec fn last_segment(s: Seq<char>) -> Seq<char> {
    s.subrange(segment_start(s, s.len() as int), s.len() as int)
}

/// The model name part of a repo id, as `rsplit('/').next()` gives it.
pub fn model_name_from_id(id: &str) -> (r: String)
    ensures
        r@ == last_segment(id@),
{
    let v = chars_of(id);
    let mut j = v.len();
    while j > 0 && v[j - 1] != '/'
        invariant
            j <= v.len(),
            v@ == id@,
            segment_start(id@, id@.len() as int) == segment_start(id@, j as int),
        decreases j,
    {
        j = j - 1;
    }
    id.substring_char(j, v.len()).to_owned()
}

// ------------------------------------------------------------------
// Size tokens in names
// ------------------------------------------------------------------
pub open spec fn is_ascii_digit(x: u8) -> bool {
    48 <= x <= 57
}

/// `B`, `b`, `M`, `m`, `T` or `t`.
pub open spec fn is_size_unit(x: u8) -> bool {
    x == 66 || x == 98 || x == 77 || x == 109 || x == 84 || x == 116
}

/// The end of the run of digits and dots that starts at `i`.
pub open spec fn number_end(b: Seq<u8>, i: int) -> int
    decreases b.len() - i,
{
    if 0 <= i < b.len() && (is_ascii_digit(b[i]) || b[i] == 46) {
        number_end(b, i + 1)
    } else {
        i
    }
}

pub proof fn lemma_number_end(b: Seq<u8>, i: int)
    ensures
        number_end(b, i) >= i,
        i <= b.len() ==> number_end(b, i) <= b.len(),
    decreases b.len() - i,
{
    if 0 <= i < b.len() && (is_ascii_digit(b[i]) || b[i] == 46) {
        lemma_number_end(b, i + 1);
    }
}

/// The tokens `<digit>(<digit>|.)*<unit>` of `b` from `i` on, scanned left to
/// right, each decoded as text.
pub open spec fn size_tokens_from(b: Seq<u8>, i: int) -> Seq<Seq<char>>
    decreases b.len() - i,
{
    if i < 0 || i >= b.len() {
        Seq::<Seq<char>>::empty()
    } else if is_ascii_digit(b[i]) {
        let j = number_end(b, i + 1);
        proof {
            lemma_number_end(b, i + 1);
        }
        if j < b.len() && is_size_unit(b[j]) {
            let tok = b.subrange(i, j + 1);
            if valid_utf8(tok) {
                seq![decode_utf8(tok)] + size_tokens_from(b, j + 1)
            } else {
                size_tokens_from(b, j + 1)
            }
        } else {
            size_tokens_from(b, j)
        }
    } else {
        size_tokens_from(b, i + 1)
    }
}

pub open spec fn texts(v: Seq<String>) -> Seq<Seq<char>> {
    v.map_values(|s: String| s@)
}

/// Substrings such as `1.1B`, `7B`, `70b`, `405B` of a repo id or file name.
pub fn split_size_tokens(name: &str) -> (r: Vec<String>)
    ensures
        texts(r@) == size_tokens_from(name.spec_bytes(), 0),
{
    let bytes = name.as_bytes();
    let ghost b = bytes@;
    let mut out: Vec<String> = Vec::new();
    let mut i: usize = 0;
    assert(texts(out@) + size_tokens_from(b, 0) =~= size_tokens_from(b, 0));
    while i < bytes.len()
        invariant
            b == bytes@,
            i <= b.len(),
            size_tokens_from(b, 0) == texts(out@) + size_tokens_from(b, i as int),
        decreases b.len() - i,
    {
        if 48 <= bytes[i] && bytes[i] <= 57 {
            let start = i;
            i = i + 1;
            while i < bytes.len() && ((48 <= bytes[i] && bytes[i] <= 57) || bytes[i] == 46)
                invariant
                    b == bytes@,
                    start < i <= b.len(),
                    number_end(b, start + 1) == number_end(b, i as int),
                decreases b.len() - i,
            {
                i = i + 1;
            }
            let u = if i < bytes.len() {
                bytes[i]
            } else {
                0
            };
            if i < bytes.len() && (u == 66 || u == 98 || u == 77 || u == 109 || u == 84 || u
                == 116) {
                let end = i + 1;
                let ghost old_out = texts(out@);
                match utf8_text(slice_subrange(bytes, start, end)) {
                    Some(tok) => {
                        out.push(tok);
                        assert(texts(out@) =~= old_out.push(decode_utf8(b.subrange(start as int, end as int))));
                        assert(old_out + (seq![decode_utf8(b.subrange(start as int, end as int))]
                            + size_tokens_from(b, end as int)) =~= texts(out@) + size_tokens_from(
                            b,
                            end as int,
                        ));
                    },
                    None => {},
                }
                i = end;
            }
        } else {
            i = i + 1;
        }
    }
    assert(texts(out@) + size_tokens_from(b, i as int) =~= texts(out@));
    out
}

// ------------------------------------------------------------------
// Repository files
// ------------------------------------------------------------------
/// A file of a Hub repository, with its size when the Hub reports it.
#[derive(Debug, Clone)]
pub struct HfSibling {
    pub rfilename: String,
    pub size: Option<u64>,
}

pub open spec fn size_or_zero(s: HfSibling) -> u64 {
    match s.size {
        Some(v) => v,
        None => 0,
    }
}

/// Upper-cased, the name ends with `.GGUF` and holds `tag`.
pub open spec fn tagged_gguf(s: HfSibling, tag: Seq<char>) -> bool {
    has_suffix(unicode_upper(s.rfilename@), ".GGUF"@) && contains_text(
        unicode_upper(s.rfilename@),
        tag,
    )
}

/// Lower-cased, the name ends with `ext`.
pub open spec fn lower_ends_with(s: HfSibling, ext: Seq<char>) -> bool {
    has_suffix(unicode_lower(s.rfilename@), ext)
}

pub open spec fn first_tagged(sibs: Seq<HfSibling>, tag: Seq<char>, i: int) -> Option<int>
    decreases sibs.len() - i,
{
    if i < 0 || i >= sibs.len() {
        None
    } else if tagged_gguf(sibs[i], tag) {
        Some(i)
    } else {
        first_tagged(sibs, tag, i + 1)
    }
}

/// The largest `.gguf` file from `i` on, given the best one before `i`; of
/// equally large ones the last.
pub open spec fn largest_gguf_from(sibs: Seq<HfSibling>, i: int, best: Option<int>) -> Option<int>
    decreases sibs.len() - i,
{
    if i < 0 || i >= sibs.len() {
        best
    } else if lower_ends_with(sibs[i], ".gguf"@) && (best is None || size_or_zero(sibs[i])
        >= size_or_zero(sibs[best->0])) {
        largest_gguf_from(sibs, i + 1, Some(i))
    } else {
        largest_gguf_from(sibs, i + 1, best)
    }
}

pub open spec fn either(a: Option<int>, b: Option<int>) -> Option<int> {
    match a {
        Some(i) => Some(i),
        None => b,
    }
}

/// The representative GGUF file: the first tagged with `Q4_K_M`, else
/// `Q4_K_S`, `Q5_K_M`, `Q4_0`, `Q8_0`; else the largest `.gguf` file.
pub open spec fn gguf_choice(sibs: Seq<HfSibling>) -> Option<int> {
    either(
        first_tagged(sibs, "Q4_K_M"@, 0),
        either(
            first_tagged(sibs, "Q4_K_S"@, 0),
            either(
                first_tagged(sibs, "Q5_K_M"@, 0),
                either(
                    first_tagged(sibs, "Q4_0"@, 0),
                    either(first_tagged(sibs, "Q8_0"@, 0), largest_gguf_from(sibs, 0, None)),
                ),
            ),
        ),
    )
}

fn is_tagged_gguf(s: &HfSibling, tag: &Vec<char>) -> (r: bool)
    ensures
        r == tagged_gguf(*s, tag@),
{
    let up = to_uppercase(s.rfilename.as_str());
    let uc = chars_of(up.as_str());
    has_suffix_exec(&uc, &chars_of(".GGUF")) && contains_text_exec(&uc, tag)
}

fn lower_ends_with_exec(s: &HfSibling, ext: &str) -> (r: bool)
    ensures
        r == lower_ends_with(*s, ext@),
{
    let low = to_lowercase(s.rfilename.as_str());
    has_suffix_exec(&chars_of(low.as_str()), &chars_of(ext))
}

fn find_tagged(sibs: &[HfSibling], tag: &str) -> (r: Option<usize>)
    ensures
        match r {
            Some(i) => first_tagged(sibs@, tag@, 0) == Some(i as int) && i < sibs@.len(),
            None => first_tagged(sibs@, tag@, 0) is None,
        },
{
    let tc = chars_of(tag);
    let mut i: usize = 0;
    while i < sibs.len()
        invariant
            i <= sibs@.len(),
            tc@ == tag@,
            first_tagged(sibs@, tag@, 0) == first_tagged(sibs@, tag@, i as int),
        decreases sibs.len() - i,
    {
        if is_tagged_gguf(&sibs[i], &tc) {
            return Some(i);
        }
        i = i + 1;
    }
    None
}

fn find_largest_gguf(sibs: &[HfSibling]) -> (r: Option<usize>)
    ensures
        match r {
            Some(i) => largest_gguf_from(sibs@, 0, None) == Some(i as int) && i < sibs@.len(),
            None => largest_gguf_from(sibs@, 0, None) is None,
        },
{
    let mut best: Option<usize> = None;
    let mut i: usize = 0;
    while i < sibs.len()
        invariant
            i <= sibs@.len(),
            best matches Some(k) ==> k < i,
            largest_gguf_from(sibs@, 0, None) == largest_gguf_from(
                sibs@,
                i as int,
                match best {
                    Some(k) => Some(k as int),
                    None => None::<int>,
                },
            ),
        decreases sibs.len() - i,
    {
        if lower_ends_with_exec(&sibs[i], ".gguf") {
            let replace = match best {
                None => true,
                Some(k) => {
                    let a = match sibs[i].size {
                        Some(v) => v,
                        None => 0,
                    };
                    let b = match sibs[k].size {
                        Some(v) => v,
                        None => 0,
                    };
                    a >= b
                },
            };
            if replace {
                best = Some(i);
            }
        }
        i = i + 1;
    }
    best
}

/// The file whose metadata stands for a GGUF repository.
pub fn pick_gguf_filename(siblings: &[HfSibling]) -> (r: Option<&str>)
    ensures
        match gguf_choice(siblings@) {
            Some(i) => r matches Some(s) && 0 <= i < siblings@.len() && s@
                == siblings@[i].rfilename@,
            None => r is None,
        },
{
    let found = match find_tagged(siblings, "Q4_K_M") {
        Some(i) => Some(i),
        None => match find_tagged(siblings, "Q4_K_S") {
            Some(i) => Some(i),
            None => match find_tagged(siblings, "Q5_K_M") {
                Some(i) => Some(i),
                None => match find_tagged(siblings, "Q4_0") {
                    Some(i) => Some(i),
                    None => match find_tagged(siblings, "Q8_0") {
                        Some(i) => Some(i),
                        None => find_largest_gguf(siblings),
                    },
                },
            },
        },
    };
    match found {
        Some(i) => Some(siblings[i].rfilename.as_str()),
        None => None,
    }
}

/// Which kinds of weight files a repository holds.
#[derive(Debug, Clone, Copy, PartialEq, Eq)]
pub struct RepoFiles {
    /// `model.safetensors.index.json` is present.
    pub has_index: bool,
    pub has_safetensors: bool,
    pub has_gguf: bool,
    pub has_bin: bool,
}

pub open spec fn any_named(sibs: Seq<HfSibling>, name: Seq<char>) -> bool {
    exists|i: int| 0 <= i < sibs.len() && sibs[i].rfilename@ == name
}

pub open spec fn any_ending(sibs: Seq<HfSibling>, ext: Seq<char>) -> bool {
    exists|i: int| 0 <= i < sibs.len() && has_suffix(sibs[i].rfilename@, ext)
}

pub open spec fn repo_files_of(sibs: Seq<HfSibling>) -> RepoFiles {
    RepoFiles {
        has_index: any_named(sibs, "model.safetensors.index.json"@),
        has_safetensors: any_ending(sibs, ".safetensors"@),
        has_gguf: any_ending(sibs, ".gguf"@),
        has_bin: any_ending(sibs, ".bin"@),
    }
}

pub open spec fn format_label_of(f: RepoFiles) -> Seq<char> {
    if f.has_gguf && !f.has_safetensors {
        "GGUF"@
    } else if f.has_safetensors || f.has_index {
        "safetensors"@
    } else if f.has_bin {
        "pytorch (.bin)"@
    } else {
        "unknown"@
    }
}

fn any_named_exec(sibs: &[HfSibling], name: &str) -> (r: bool)
    ensures
        r == any_named(sibs@, name@),
{
    let mut i: usize = 0;
    while i < sibs.len()
        invariant
            i <= sibs@.len(),
            forall|t: int| 0 <= t < i ==> sibs@[t].rfilename@ != name@,
        decreases sibs.len() - i,
    {
        if same_text(sibs[i].rfilename.as_str(), name) {
            return true;
        }
        i = i + 1;
    }
    false
}

fn any_ending_exec(sibs: &[HfSibling], ext: &str) -> (r: bool)
    ensures
        r == any_ending(sibs@, ext@),
{
    let ec = chars_of(ext);
    let mut i: usize = 0;
    while i < sibs.len()
        invariant
            i <= sibs@.len(),
            ec@ == ext@,
            forall|t: int| 0 <= t < i ==> !has_suffix(sibs@[t].rfilename@, ext@),
        decreases sibs.len() - i,
    {
        if has_suffix_exec(&chars_of(sibs[i].rfilename.as_str()), &ec) {
            return true;
        }
        i = i + 1;
    }
    false
}

impl RepoFiles {
    /// Which weight files the repository lists (names compared exactly).
    pub fn classify(siblings: &[HfSibling]) -> (r: RepoFiles)
        ensures
            r == repo_files_of(siblings@),
    {
        RepoFiles {
            has_index: any_named_exec(siblings, "model.safetensors.index.json"),
            has_safetensors: any_ending_exec(siblings, ".safetensors"),
            has_gguf: any_ending_exec(siblings, ".gguf"),
            has_bin: any_ending_exec(siblings, ".bin"),
        }
    }

    /// The file format shown for the repository: GGUF when it has GGUF files
    /// and no safetensors, else safetensors, else PyTorch `.bin`.
    pub fn format_label(&self) -> (r: &'static str)
        ensures
            r@ == format_label_of(*self),
    {
        if self.has_gguf && !self.has_safetensors {
            "GGUF"
        } else if self.has_safetensors || self.has_index {
            "safetensors"
        } else if self.has_bin {
            "pytorch (.bin)"
        } else {
            "unknown"
        }
    }
}

/// The largest reported size of a `.gguf` file (names compared lower-cased)
/// from `i` on; 0 when there is none.
pub open spec fn largest_gguf_size_from(sibs: Seq<HfSibling>, i: int) -> u64
    decreases sibs.len() - i,
{
    if i < 0 || i >= sibs.len() {
        0
    } else {
        let rest = largest_gguf_size_from(sibs, i + 1);
        if lower_ends_with(sibs[i], ".gguf"@) && sibs[i].size is Some && sibs[i].size->0 > rest {
            sibs[i].size->0
        } else {
            rest
        }
    }
}

/// The total reported size of `.safetensors` and `.bin` files (names
/// compared lower-cased) from `i` on.
pub open spec fn weight_bytes_from(sibs: Seq<HfSibling>, i: int) -> int
    decreases sibs.len() - i,
{
    if i < 0 || i >= sibs.len() {
        0
    } else {
        let rest = weight_bytes_from(sibs, i + 1);
        if (lower_ends_with(sibs[i], ".safetensors"@) || lower_ends_with(sibs[i], ".bin"@))
            && sibs[i].size is Some {
            sibs[i].size->0 + rest
        } else {
            rest
        }
    }
}

/// The size of the largest single `.gguf` file, 0 when no size is reported.
pub fn largest_gguf_size(siblings: &[HfSibling]) -> (r: u64)
    ensures
        r == largest_gguf_size_from(siblings@, 0),
{
    let mut best: u64 = 0;
    let mut i = siblings.len();
    while i > 0
        invariant
            i <= siblings@.len(),
            best == largest_gguf_size_from(siblings@, i as int),
        decreases i,
    {
        i = i - 1;
        if lower_ends_with_exec(&siblings[i], ".gguf") {
            match siblings[i].size {
                Some(v) => if v > best {
                    best = v;
                },
                None => {},
            }
        }
    }
    best
}

proof fn lemma_weight_bytes_bound(sibs: Seq<HfSibling>, i: int)
    requires
        0 <= i <= sibs.len(),
    ensures
        0 <= weight_bytes_from(sibs, i) <= (sibs.len() - i) * 0xFFFF_FFFF_FFFF_FFFF,
    decreases sibs.len() - i,
{
    if i < sibs.len() {
        lemma_weight_bytes_bound(sibs, i + 1);
    }
}

/// The total size of the `.safetensors` and `.bin` files, summed exactly.
pub fn total_weight_bytes(siblings: &[HfSibling]) -> (r: u128)
    ensures
        r == weight_bytes_from(siblings@, 0),
{
    let mut total: u128 = 0;
    let mut i = siblings.len();
    proof {
        lemma_weight_bytes_bound(siblings@, 0);
    }
    while i > 0
        invariant
            i <= siblings@.len(),
            total == weight_bytes_from(siblings@, i as int),
            0 <= weight_bytes_from(siblings@, i as int) <= (siblings@.len() - i)
                * 0xFFFF_FFFF_FFFF_FFFF,
            siblings@.len() <= usize::MAX,
        decreases i,
    {
        i = i - 1;
        proof {
            lemma_weight_bytes_bound(siblings@, i as int);
        }
        if lower_ends_with_exec(&siblings[i], ".safetensors") || lower_ends_with_exec(
            &siblings[i],
            ".bin",
        ) {
            match siblings[i].size {
                Some(v) => {
                    total = total + v as u128;
                },
                None => {},
            }
        }
    }
    total
}

// ------------------------------------------------------------------
// Hub responses
// ------------------------------------------------------------------
/// Why a model's Hub metadata cannot be used.
#[derive(Debug, Clone, Copy, PartialEq, Eq)]
pub enum HubError {
    /// HTTP 401 or 403: not found, or private / gated.
    AccessDenied(u16),
    /// HTTP 404.
    NotFound,
    /// Any other status outside 200..=299.
    HttpStatus(u16),
    /// The repository is marked private.
    Private,
}

pub open spec fn status_outcome(status: u16) -> Result<(), HubError> {
    if status == 401 || status == 403 {
        Err(HubError::AccessDenied(status))
    } else if status == 404 {
        Err(HubError::NotFound)
    } else if !(200 <= status <= 299) {
        Err(HubError::HttpStatus(status))
    } else {
        Ok(())
    }
}

/// The decision on the status of a model-info request.
pub fn check_hub_status(status: u16) -> (r: Result<(), HubError>)
    ensures
        r == status_outcome(status),
{
    if status == 401 || status == 403 {
        Err(HubError::AccessDenied(status))
    } else if status == 404 {
        Err(HubError::NotFound)
    } else if status < 200 || status > 299 {
        Err(HubError::HttpStatus(status))
    } else {
        Ok(())
    }
}

/// The Hub's `gated` field: a boolean, a text such as `"auto"` or
/// `"manual"`, or anything else.
#[derive(Debug, Clone)]
pub enum GatedFlag {
    Bool(bool),
    Text(String),
    Other,
}

pub open spec fn is_gated(g: GatedFlag) -> bool {
    match g {
        GatedFlag::Bool(b) => b,
        GatedFlag::Text(s) => s@.len() > 0 && s@ != "false"@,
        GatedFlag::Other => false,
    }
}

/// Refuses private repositories; otherwise tells whether the repository is
/// gated (its public metadata may then be incomplete).
pub fn check_model_access(private: bool, gated: &GatedFlag) -> (r: Result<bool, HubError>)
    ensures
        r == if private {
            Err::<bool, HubError>(HubError::Private)
        } else {
            Ok(is_gated(*gated))
        },
{
    if private {
        return Err(HubError::Private);
    }
    let g = match gated {
        GatedFlag::Bool(b) => *b,
        GatedFlag::Text(s) => !s.as_str().is_empty() && !same_text(s.as_str(), "false"),
        GatedFlag::Other => false,
    };
    Ok(g)
}

// ------------------------------------------------------------------
// Laws of the representative GGUF file
// ------------------------------------------------------------------
proof fn lemma_first_tagged_at(sibs: Seq<HfSibling>, tag: Seq<char>, i: int, j: int)
    requires
        0 <= i <= j < sibs.len(),
        tagged_gguf(sibs[j], tag),
        forall|l: int| i <= l < j ==> !tagged_gguf(#[trigger] sibs[l], tag),
    ensures
        first_tagged(sibs, tag, i) == Some(j),
    decreases j - i,
{
    if i < j {
        lemma_first_tagged_at(sibs, tag, i + 1, j);
    }
}

proof fn lemma_first_tagged_absent(sibs: Seq<HfSibling>, tag: Seq<char>, i: int)
    requires
        0 <= i,
        forall|l: int| i <= l < sibs.len() ==> !tagged_gguf(#[trigger] sibs[l], tag),
    ensures
        first_tagged(sibs, tag, i) is None,
    decreases sibs.len() - i,
{
    if i < sibs.len() {
        lemma_first_tagged_absent(sibs, tag, i + 1);
    }
}

/// The representative file follows the quant-tag preference Q4_K_M, Q4_K_S,
/// Q5_K_M, Q4_0, Q8_0: when no file is a `.GGUF` file (upper-cased) holding
/// one of the tags before `tags[k]`, and file `j` is the first holding
/// `tags[k]`, file `j` is chosen.
pub proof fn law_gguf_choice_follows_tag_preference(
    sibs: Seq<HfSibling>,
    tags: Seq<Seq<char>>,
    k: int,
    j: int,
)
    requires
        tags == seq!["Q4_K_M"@, "Q4_K_S"@, "Q5_K_M"@, "Q4_0"@, "Q8_0"@],
        0 <= k < tags.len(),
        0 <= j < sibs.len(),
        has_suffix(unicode_upper(sibs[j].rfilename@), ".GGUF"@),
        contains_text(unicode_upper(sibs[j].rfilename@), tags[k]),
        forall|i: int|
            0 <= i < j ==> !(has_suffix(unicode_upper(sibs[i].rfilename@), ".GGUF"@)
                && #[trigger] contains_text(unicode_upper(sibs[i].rfilename@), tags[k])),
        forall|k2: int, i: int|
            0 <= k2 < k && 0 <= i < sibs.len() ==> !(has_suffix(
                unicode_upper(sibs[i].rfilename@),
                ".GGUF"@,
            ) && #[trigger] contains_text(unicode_upper(sibs[i].rfilename@), tags[k2])),
    ensures
        gguf_choice(sibs) == Some(j),
{
    assert forall|l: int| 0 <= l < j implies !tagged_gguf(#[trigger] sibs[l], tags[k]) by {
        assert(!(has_suffix(unicode_upper(sibs[l].rfilename@), ".GGUF"@) && contains_text(
            unicode_upper(sibs[l].rfilename@),
            tags[k],
        )));
    }
    lemma_first_tagged_at(sibs, tags[k], 0, j);
    assert forall|k2: int| 0 <= k2 < k implies first_tagged(sibs, #[trigger] tags[k2], 0) is None by {
        assert forall|l: int| 0 <= l < sibs.len() implies !tagged_gguf(
            #[trigger] sibs[l],
            tags[k2],
        ) by {
            assert(!(has_suffix(unicode_upper(sibs[l].rfilename@), ".GGUF"@) && contains_text(
                unicode_upper(sibs[l].rfilename@),
                tags[k2],
            )));
        }
        lemma_first_tagged_absent(sibs, tags[k2], 0);
    }
    assert(tags[0] == "Q4_K_M"@);
    assert(tags[1] == "Q4_K_S"@);
    assert(tags[2] == "Q5_K_M"@);
    assert(tags[3] == "Q4_0"@);
    assert(tags[4] == "Q8_0"@);
}

/// What `largest_gguf_from` keeps while walking: `best` is the last of the
/// largest `.gguf` files before `i`, and there is none when `best` is `None`.
spec fn largest_so_far(sibs: Seq<HfSibling>, i: int, best: Option<int>) -> bool {
    match best {
        None => forall|l: int|
            0 <= l < i ==> !has_suffix(unicode_lower(#[trigger] sibs[l].rfilename@), ".gguf"@),
        Some(b) => {
            &&& 0 <= b < i
            &&& has_suffix(unicode_lower(sibs[b].rfilename@), ".gguf"@)
            &&& forall|l: int|
                0 <= l < i && has_suffix(unicode_lower(#[trigger] sibs[l].rfilename@), ".gguf"@)
                    ==> size_or_zero(sibs[l]) <= size_or_zero(sibs[b])
            &&& forall|l: int|
                b < l < i && has_suffix(unicode_lower(#[trigger] sibs[l].rfilename@), ".gguf"@)
                    ==> size_or_zero(sibs[l]) < size_or_zero(sibs[b])
        },
    }
}

proof fn lemma_largest_gguf_from(sibs: Seq<HfSibling>, i: int, best: Option<int>)
    requires
        0 <= i <= sibs.len(),
        largest_so_far(sibs, i, best),
    ensures
        largest_so_far(sibs, sibs.len() as int, largest_gguf_from(sibs, i, best)),
    decreases sibs.len() - i,
{
    if i < sibs.len() {
        if lower_ends_with(sibs[i], ".gguf"@) && (best is None || size_or_zero(sibs[i])
            >= size_or_zero(sibs[best->0])) {
            assert(largest_so_far(sibs, i + 1, Some(i)));
            lemma_largest_gguf_from(sibs, i + 1, Some(i));
        } else {
            assert(largest_so_far(sibs, i + 1, best));
            lemma_largest_gguf_from(sibs, i + 1, best);
        }
    }
}

/// When no file is a `.GGUF` file (upper-cased) holding any of Q4_K_M,
/// Q4_K_S, Q5_K_M, Q4_0 or Q8_0, the representative file is the largest
/// `.gguf` file (lower-cased name; a missing size counts as zero), the last
/// of equally large ones, and there is none exactly when no file is a
/// `.gguf` file.
pub proof fn law_gguf_choice_falls_back_to_largest(sibs: Seq<HfSibling>, tags: Seq<Seq<char>>)
    requires
        tags == seq!["Q4_K_M"@, "Q4_K_S"@, "Q5_K_M"@, "Q4_0"@, "Q8_0"@],
        forall|k: int, i: int|
            0 <= k < tags.len() && 0 <= i < sibs.len() ==> !(has_suffix(
                unicode_upper(sibs[i].rfilename@),
                ".GGUF"@,
            ) && #[trigger] contains_text(unicode_upper(sibs[i].rfilename@), tags[k])),
    ensures
        gguf_choice(sibs) is None <==> forall|l: int|
            0 <= l < sibs.len() ==> !has_suffix(unicode_lower(#[trigger] sibs[l].rfilename@), ".gguf"@),
        gguf_choice(sibs) matches Some(c) ==> {
            &&& 0 <= c < sibs.len()
            &&& has_suffix(unicode_lower(sibs[c].rfilename@), ".gguf"@)
            &&& forall|l: int|
                0 <= l < sibs.len() && has_suffix(unicode_lower(#[trigger] sibs[l].rfilename@), ".gguf"@)
                    ==> size_or_zero(sibs[l]) <= size_or_zero(sibs[c])
            &&& forall|l: int|
                c < l < sibs.len() && has_suffix(unicode_lower(#[trigger] sibs[l].rfilename@), ".gguf"@)
                    ==> size_or_zero(sibs[l]) < size_or_zero(sibs[c])
        },
{
    assert forall|k: int| 0 <= k < tags.len() implies first_tagged(sibs, #[trigger] tags[k], 0) is None by {
        assert forall|l: int| 0 <= l < sibs.len() implies !tagged_gguf(
            #[trigger] sibs[l],
            tags[k],
        ) by {
            assert(!(has_suffix(unicode_upper(sibs[l].rfilename@), ".GGUF"@) && contains_text(
                unicode_upper(sibs[l].rfilename@),
                tags[k],
            )));
        }
        lemma_first_tagged_absent(sibs, tags[k], 0);
    }
    assert(tags[0] == "Q4_K_M"@);
    assert(tags[1] == "Q4_K_S"@);
    assert(tags[2] == "Q5_K_M"@);
    assert(tags[3] == "Q4_0"@);
    assert(tags[4] == "Q8_0"@);
    assert(first_tagged(sibs, tags[0], 0) is None);
    assert(first_tagged(sibs, tags[1], 0) is None);
    assert(first_tagged(sibs, tags[2], 0) is None);
    assert(first_tagged(sibs, tags[3], 0) is None);
    assert(first_tagged(sibs, tags[4], 0) is None);
    assert(largest_so_far(sibs, 0, None));
    lemma_largest_gguf_from(sibs, 0, None);
    assert(gguf_choice(sibs) == largest_gguf_from(sibs, 0, None));
}

// ------------------------------------------------------------------
// Laws of Hub responses and repository files
// ------------------------------------------------------------------
/// A model-info response is usable exactly when its status is a 2xx
/// success; 401 and 403 are access errors carrying the status, 404 is "not
/// found", and every other status is reported as such.
pub proof fn law_hub_status(status: u16)
    ensures
        status_outcome(status) is Ok <==> 200 <= status <= 299,
        (status == 401 || status == 403) ==> status_outcome(status) == Err::<(), HubError>(
            HubError::AccessDenied(status),
        ),
        status == 404 ==> status_outcome(status) == Err::<(), HubError>(HubError::NotFound),
        !(200 <= status <= 299 || status == 401 || status == 403 || status == 404)
            ==> status_outcome(status) == Err::<(), HubError>(HubError::HttpStatus(status)),
{
}

/// The format shown for a repository: GGUF when it lists a `.gguf` file and
/// no `.safetensors` file; safetensors when it lists a `.safetensors` file
/// or the safetensors index; PyTorch `.bin` when it lists only `.bin`
/// weights; unknown otherwise.
pub proof fn law_format_label(sibs: Seq<HfSibling>)
    ensures
        ({
            let lists = |ext: Seq<char>|
                exists|i: int| 0 <= i < sibs.len() && has_suffix(sibs[i].rfilename@, ext);
            let index = exists|i: int|
                0 <= i < sibs.len() && sibs[i].rfilename@ == "model.safetensors.index.json"@;
            let label = format_label_of(repo_files_of(sibs));
            &&& lists(".gguf"@) && !lists(".safetensors"@) ==> label == "GGUF"@
            &&& !(lists(".gguf"@) && !lists(".safetensors"@)) && (lists(".safetensors"@) || index)
                ==> label == "safetensors"@
            &&& !lists(".gguf"@) && !lists(".safetensors"@) && !index && lists(".bin"@) ==> label
                == "pytorch (.bin)"@
            &&& !lists(".gguf"@) && !lists(".safetensors"@) && !index && !lists(".bin"@) ==> label
                == "unknown"@
        }),
{
}

proof fn lemma_largest_gguf_size(sibs: Seq<HfSibling>, i: int)
    requires
        0 <= i <= sibs.len(),
    ensures
        forall|l: int|
            i <= l < sibs.len() && has_suffix(unicode_lower(#[trigger] sibs[l].rfilename@), ".gguf"@)
                && sibs[l].size is Some ==> sibs[l].size->0 <= largest_gguf_size_from(sibs, i),
        largest_gguf_size_from(sibs, i) == 0 || exists|l: int|
            i <= l < sibs.len() && has_suffix(unicode_lower(#[trigger] sibs[l].rfilename@), ".gguf"@)
                && sibs[l].size == Some(largest_gguf_size_from(sibs, i)),
    decreases sibs.len() - i,
{
    if i < sibs.len() {
        lemma_largest_gguf_size(sibs, i + 1);
    }
}

/// The largest GGUF size is the largest size reported for a `.gguf` file
/// (lower-cased name): no such file is larger, and unless it is 0 some such
/// file has exactly that size.
pub proof fn law_largest_gguf_size(sibs: Seq<HfSibling>)
    ensures
        forall|l: int|
            0 <= l < sibs.len() && has_suffix(unicode_lower(#[trigger] sibs[l].rfilename@), ".gguf"@)
                && sibs[l].size is Some ==> sibs[l].size->0 <= largest_gguf_size_from(sibs, 0),
        largest_gguf_size_from(sibs, 0) == 0 || exists|l: int|
            0 <= l < sibs.len() && has_suffix(unicode_lower(#[trigger] sibs[l].rfilename@), ".gguf"@)
                && sibs[l].size == Some(largest_gguf_size_from(sibs, 0)),
{
    lemma_largest_gguf_size(sibs, 0);
}

proof fn lemma_segment_start(s: Seq<char>, from: int, j: int)
    requires
        0 <= from <= j <= s.len(),
        from == 0 || s[from - 1] == '/',
        forall|i: int| from <= i < j ==> #[trigger] s[i] != '/',
    ensures
        segment_start(s, j) == from,
    decreases j,
{
    if j > from {
        lemma_segment_start(s, from, j - 1);
    }
}

/// The model name of a repo id is what follows its last `/`: `org/name`
/// gives `name` (whatever `org` holds), and an id without `/` is its own
/// name.
pub proof fn law_model_name_after_last_slash(org: Seq<char>, name: Seq<char>)
    requires
        !name.contains('/'),
    ensures
        last_segment(org + "/"@ + name) == name,
        last_segment(name) == name,
{
    let id = org + "/"@ + name;
    reveal_strlit("/");
    assert forall|i: int| org.len() + 1 <= i < id.len() implies #[trigger] id[i] != '/' by {
        assert(id[i] == name[i - org.len() - 1]);
    }
    lemma_segment_start(id, (org.len() + 1) as int, id.len() as int);
    assert(id.subrange((org.len() + 1) as int, id.len() as int) =~= name);
    lemma_segment_start(name, 0, name.len() as int);
    assert(name.subrange(0, name.len() as int) =~= name);
}

/// A repository is gated when the Hub says `true`, or gives a non-empty
/// text other than `"false"` (such as `"auto"` or `"manual"`); `false`, the
/// empty text, `"false"` and any other value mean it is not.
pub proof fn law_gated_flag(g: GatedFlag)
    ensures
        g matches GatedFlag::Bool(b) ==> is_gated(g) == b,
        g matches GatedFlag::Text(t) ==> (is_gated(g) <==> (t@.len() > 0 && t@ != "false"@)),
        g is Other ==> !is_gated(g),
{
}

} // verus!
