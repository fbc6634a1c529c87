//! Font candidates: which files count as fonts, how a file name is scored,
//! and how the scanned files become one ordered candidate list.

use crate::render::chars::{ascii_lower, chars_of, contains, contains_sub, equals, to_ascii_lower};
use vstd::prelude::*;

verus! {

/// The score of a font that is only a last resort.
pub const PRIORITY_LAST_RESORT: u8 = 255;

/// The score of emoji, color and symbol fonts.
pub const PRIORITY_SYMBOLS: u8 = 8;

/// What a style or weight keyword adds to the base score.
pub const VARIANT_PENALTY: u8 = 50;

/// A font file found on the system, with its score. Lower scores are
/// preferred.
#[derive(Debug)]
pub struct SystemFontEntry {
    pub path: String,
    pub priority: u8,
}

/// The index of the last `c` in `s`, or -1 if there is none.
pub open spec fn last_index_of(s: Seq<char>, c: char) -> int
    decreases s.len(),
{
    if s.len() == 0 {
        -1
    } else if s.last() == c {
        s.len() - 1
    } else {
        last_index_of(s.drop_last(), c)
    }
}

/// The last component of a path: what follows its last `/`.
pub open spec fn file_name(path: Seq<char>) -> Seq<char> {
    path.subrange(last_index_of(path, '/') + 1, path.len() as int)
}

/// The index of the dot that starts the extension of a file name, if the
/// name has an extension. A dot at the very start of the name starts none.
pub open spec fn extension_dot(name: Seq<char>) -> Option<int> {
    let dot = last_index_of(name, '.');
    if dot <= 0 {
        None
    } else {
        Some(dot)
    }
}

/// The file name of `path` without its extension.
pub open spec fn file_stem(path: Seq<char>) -> Seq<char> {
    let name = file_name(path);
    match extension_dot(name) {
        Some(dot) => name.subrange(0, dot),
        None => name,
    }
}

/// The extension of the file name of `path`: what follows its last dot.
pub open spec fn extension(path: Seq<char>) -> Option<Seq<char>> {
    let name = file_name(path);
    match extension_dot(name) {
        Some(dot) => Some(name.subrange(dot + 1, name.len() as int)),
        None => None,
    }
}

/// The name by which a font file is judged: its stem in lower case.
pub open spec fn font_name(path: Seq<char>) -> Seq<char> {
    ascii_lower(file_stem(path))
}

/// What `last_index_of` returns: the greatest index at which `c` stands.
pub proof fn lemma_last_index_of(s: Seq<char>, c: char)
    ensures
        -1 <= last_index_of(s, c) < s.len(),
        last_index_of(s, c) >= 0 ==> s[last_index_of(s, c)] == c,
        forall|j: int| last_index_of(s, c) < j < s.len() ==> s[j] != c,
    decreases s.len(),
{
    if s.len() > 0 && s.last() != c {
        let rest = s.drop_last();
        lemma_last_index_of(rest, c);
        assert forall|j: int| last_index_of(s, c) < j < s.len() implies s[j] != c by {
            if j < rest.len() {
                assert(rest[j] == s[j]);
            }
        }
    }
}

/// Computes `last_index_of` on the first `end` characters; `end` stands for
/// "none" in the result.
fn last_index(s: &Vec<char>, start: usize, end: usize, c: char) -> (r: Option<usize>)
    requires
        start <= end <= s.len(),
    ensures
        match r {
            Some(i) => last_index_of(s@.subrange(start as int, end as int), c) == i - start
                && start <= i < end,
            None => last_index_of(s@.subrange(start as int, end as int), c) == -1,
        },
{
    let ghost whole = s@.subrange(start as int, end as int);
    let mut i: usize = end;
    while i > start
        invariant
            start <= i <= end <= s.len(),
            whole == s@.subrange(start as int, end as int),
            forall|j: int| i - start <= j < whole.len() ==> whole[j] != c,
        decreases i,
    {
        i -= 1;
        if s[i] == c {
            proof {
                lemma_last_index_of(whole, c);
                assert(whole[i - start] == c);
            }
            return Some(i);
        }
    }
    proof {
        lemma_last_index_of(whole, c);
    }
    None
}

/// Where the file name starts in a path, and where its extension dot is.
fn name_bounds(chars: &Vec<char>) -> (r: (usize, Option<usize>))
    ensures
        r.0 == last_index_of(chars@, '/') + 1,
        r.0 <= chars.len(),
        match r.1 {
            Some(dot) => r.0 < dot < chars.len() && extension_dot(file_name(chars@)) == Some(
                dot - r.0,
            ),
            None => extension_dot(file_name(chars@)) is None,
        },
{
    assert(chars@.subrange(0, chars@.len() as int) =~= chars@);
    let start: usize = match last_index(chars, 0, chars.len(), '/') {
        Some(i) => i + 1,
        None => 0,
    };
    let dot: Option<usize> = match last_index(chars, start, chars.len(), '.') {
        Some(i) => if i > start {
            Some(i)
        } else {
            None
        },
        None => None,
    };
    (start, dot)
}

/// The characters of `chars` from `from` up to `to`.
fn copy_range(chars: &Vec<char>, from: usize, to: usize) -> (r: Vec<char>)
    requires
        from <= to <= chars.len(),
    ensures
        r@ == chars@.subrange(from as int, to as int),
{
    let mut r: Vec<char> = Vec::new();
    let mut k: usize = from;
    while k < to
        invariant
            from <= k <= to <= chars.len(),
            r@ == chars@.subrange(from as int, k as int),
        decreases to - k,
    {
        r.push(chars[k]);
        k += 1;
        assert(r@ =~= chars@.subrange(from as int, k as int));
    }
    r
}

/// The lower-case stem of the file name of `path`.
pub fn font_name_of(path: &str) -> (name: Vec<char>)
    ensures
        name@ == font_name(path@),
{
    let chars = chars_of(path);
    let (start, dot) = name_bounds(&chars);
    let end: usize = match dot {
        Some(d) => d,
        None => chars.len(),
    };
    let stem = copy_range(&chars, start, end);
    proof {
        let name = file_name(path@);
        assert(name == chars@.subrange(start as int, chars@.len() as int));
        assert(stem@ =~= file_stem(path@));
    }
    to_ascii_lower(&stem)
}

/// The extension of the file name of `path`, if it has one.
pub fn extension_of(path: &str) -> (ext: Option<Vec<char>>)
    ensures
        match ext {
            Some(e) => extension(path@) == Some(e@),
            None => extension(path@) is None,
        },
{
    let chars = chars_of(path);
    let (start, dot) = name_bounds(&chars);
    match dot {
        Some(d) => {
            let e = copy_range(&chars, d + 1, chars.len());
            proof {
                let name = file_name(path@);
                assert(name == chars@.subrange(start as int, chars@.len() as int));
                assert(e@ =~= name.subrange(d - start + 1, name.len() as int));
            }
            Some(e)
        },
        None => None,
    }
}

/// Whether the extension of `path` is one of the font containers `ttf`,
/// `otf` and `ttc`, in any mix of upper and lower case.
pub open spec fn is_font_path(path: Seq<char>) -> bool {
    match extension(path) {
        Some(e) => {
            let ext = ascii_lower(e);
            ext == "ttf"@ || ext == "otf"@ || ext == "ttc"@
        },
        None => false,
    }
}

/// Computes `is_font_path`.
pub fn is_font_file(path: &str) -> (r: bool)
    ensures
        r == is_font_path(path@),
{
    match extension_of(path) {
        Some(e) => {
            let ext = to_ascii_lower(&e);
            equals(&ext, "ttf") || equals(&ext, "otf") || equals(&ext, "ttc")
        },
        None => false,
    }
}

/// Whether the extension of `path` is exactly `conf`.
pub open spec fn is_conf_path(path: Seq<char>) -> bool {
    extension(path) == Some("conf"@)
}

/// Computes `is_conf_path`.
pub fn is_conf_file(path: &str) -> (r: bool)
    ensures
        r == is_conf_path(path@),
{
    match extension_of(path) {
        Some(e) => equals(&e, "conf"),
        None => false,
    }
}

/// A variable font (brackets in the name) or a family for a script that
/// ordinary dialog text does not use.
pub open spec fn is_exotic_name(name: Seq<char>) -> bool {
    ||| contains_sub(name, "["@)
    ||| contains_sub(name, "]"@)
    ||| contains_sub(name, "adlam"@)
    ||| contains_sub(name, "arabic"@)
    ||| contains_sub(name, "hebrew"@)
    ||| contains_sub(name, "thai"@)
    ||| contains_sub(name, "cjk"@)
    ||| contains_sub(name, "korean"@)
    ||| contains_sub(name, "japanese"@)
    ||| contains_sub(name, "indic"@)
    ||| contains_sub(name, "syriac"@)
    ||| contains_sub(name, "myanmar"@)
    ||| contains_sub(name, "ethiopic"@)
}

/// An emoji, color or symbol font, as far as scoring goes.
pub open spec fn is_symbol_name(name: Seq<char>) -> bool {
    ||| contains_sub(name, "emoji"@)
    ||| contains_sub(name, "color"@)
    ||| contains_sub(name, "symbol"@)
    ||| contains_sub(name, "nerdfont"@)
}

/// A name that carries a style or weight keyword.
pub open spec fn is_variant_name(name: Seq<char>) -> bool {
    ||| contains_sub(name, "bold"@)
    ||| contains_sub(name, "italic"@)
    ||| contains_sub(name, "oblique"@)
    ||| contains_sub(name, "mono"@)
    ||| contains_sub(name, "condensed"@)
    ||| contains_sub(name, "light"@)
    ||| contains_sub(name, "thin"@)
    ||| contains_sub(name, "black"@)
    ||| contains_sub(name, "semibold"@)
    ||| contains_sub(name, "extrabold"@)
}

/// The score of a family from the table of preferred sans-serif families.
pub open spec fn base_priority(name: Seq<char>) -> u8 {
    if name == "notosans"@ || name == "notosans-regular"@ {
        1
    } else if name == "dejavusans"@ {
        2
    } else if contains_sub(name, "liberation"@) && contains_sub(name, "sans"@) {
        3
    } else if contains_sub(name, "ubuntu"@) && contains_sub(name, "regular"@) {
        4
    } else if name == "cantarell"@ || name == "cantarell-regular"@ {
        5
    } else if contains_sub(name, "noto"@) && contains_sub(name, "sans"@) {
        6
    } else if contains_sub(name, "sans"@) {
        10
    } else {
        50
    }
}

/// The score of a font by its lower-case name. Lower is preferred.
pub open spec fn name_priority(name: Seq<char>) -> u8 {
    if is_exotic_name(name) {
        PRIORITY_LAST_RESORT
    } else if is_symbol_name(name) {
        PRIORITY_SYMBOLS
    } else if is_variant_name(name) {
        (base_priority(name) + VARIANT_PENALTY) as u8
    } else {
        base_priority(name)
    }
}

/// Computes `is_exotic_name`.
fn is_exotic(name: &Vec<char>) -> (r: bool)
    ensures
        r == is_exotic_name(name@),
{
    contains(name, "[") || contains(name, "]") || contains(name, "adlam") || contains(
        name,
        "arabic",
    ) || contains(name, "hebrew") || contains(name, "thai") || contains(name, "cjk") || contains(
        name,
        "korean",
    ) || contains(name, "japanese") || contains(name, "indic") || contains(name, "syriac")
        || contains(name, "myanmar") || contains(name, "ethiopic")
}

/// Computes `is_symbol_name`.
fn is_symbol(name: &Vec<char>) -> (r: bool)
    ensures
        r == is_symbol_name(name@),
{
    contains(name, "emoji") || contains(name, "color") || contains(name, "symbol") || contains(
        name,
        "nerdfont",
    )
}

/// Computes `is_variant_name`.
fn is_variant(name: &Vec<char>) -> (r: bool)
    ensures
        r == is_variant_name(name@),
{
    contains(name, "bold") || contains(name, "italic") || contains(name, "oblique") || contains(
        name,
        "mono",
    ) || contains(name, "condensed") || contains(name, "light") || contains(name, "thin")
        || contains(name, "black") || contains(name, "semibold") || contains(name, "extrabold")
}

/// Computes `base_priority`.
fn base_score(name: &Vec<char>) -> (r: u8)
    ensures
        r == base_priority(name@),
        r <= 50,
{
    if equals(name, "notosans") || equals(name, "notosans-regular") {
        1
    } else if equals(name, "dejavusans") {
        2
    } else if contains(name, "liberation") && contains(name, "sans") {
        3
    } else if contains(name, "ubuntu") && contains(name, "regular") {
        4
    } else if equals(name, "cantarell") || equals(name, "cantarell-regular") {
        5
    } else if contains(name, "noto") && contains(name, "sans") {
        6
    } else if contains(name, "sans") {
        10
    } else {
        50
    }
}

/// The score of the font file at `path`: 255 for variable fonts and exotic
/// scripts, 8 for emoji and symbol fonts, else the family's score from the
/// preference table, plus 50 if the name carries a style or weight keyword.
pub fn font_priority(path: &str) -> (p: u8)
    ensures
        p == name_priority(font_name(path@)),
{
    let name = font_name_of(path);
    if is_exotic(&name) {
        return PRIORITY_LAST_RESORT;
    }
    if is_symbol(&name) {
        return PRIORITY_SYMBOLS;
    }
    let variant = is_variant(&name);
    let base = base_score(&name);
    if variant {
        base + VARIANT_PENALTY
    } else {
        base
    }
}

/// A font with a style or weight keyword always scores behind one without,
/// as long as neither is a last-resort or symbol font.
pub proof fn lemma_variants_score_behind(variant: Seq<char>, plain: Seq<char>)
    requires
        !is_exotic_name(variant) && !is_symbol_name(variant),
        !is_exotic_name(plain) && !is_symbol_name(plain),
        is_variant_name(variant),
        !is_variant_name(plain),
    ensures
        name_priority(plain) < name_priority(variant),
        name_priority(variant) == base_priority(variant) + 50,
{
}

/// The preferred families score ahead of every other font.
pub proof fn lemma_scores_are_banded(name: Seq<char>)
    ensures
        1 <= name_priority(name),
        !is_exotic_name(name) ==> name_priority(name) <= 100,
        !is_exotic_name(name) && !is_symbol_name(name) && !is_variant_name(name)
            ==> name_priority(name) <= 50,
{
}

/// The value of a font candidate.
pub ghost struct FontEntry {
    pub path: Seq<char>,
    pub priority: u8,
}

impl View for SystemFontEntry {
    type V = FontEntry;

    open spec fn view(&self) -> FontEntry {
        FontEntry { path: self.path@, priority: self.priority }
    }
}

/// The values of a list of candidates.
pub open spec fn entries_of(fonts: Seq<SystemFontEntry>) -> Seq<FontEntry> {
    Seq::new(fonts.len(), |i: int| fonts[i]@)
}

/// A file that the scan came upon, with the key under which it counts as
/// one file: its resolved path, or the path itself where that cannot be
/// resolved.
#[derive(Debug)]
pub struct FoundFile {
    pub path: String,
    pub key: String,
}

/// Whether one of the first `n` files of the scan is a font file with the
/// key `key`.
pub open spec fn key_seen(files: Seq<FoundFile>, n: int, key: Seq<char>) -> bool {
    exists|j: int| 0 <= j < n && #[trigger] has_key(files, j, key)
}

/// Whether file `j` of the scan is a font file with the key `key`.
pub open spec fn has_key(files: Seq<FoundFile>, j: int, key: Seq<char>) -> bool {
    is_font_path(files[j].path@) && files[j].key@ == key
}

/// Whether file `i` of the scan is a font file that no earlier font file of
/// the scan shares its key with.
pub open spec fn is_first_font(files: Seq<FoundFile>, i: int) -> bool {
    is_font_path(files[i].path@) && !key_seen(files, i, files[i].key@)
}

/// The font files among the first `n` files of the scan, each once, with
/// their scores, in the order of the scan.
pub open spec fn unique_fonts(files: Seq<FoundFile>, n: int) -> Seq<FontEntry>
    decreases n,
{
    if n <= 0 {
        Seq::empty()
    } else if is_first_font(files, n - 1) {
        unique_fonts(files, n - 1).push(
            FontEntry {
                path: files[n - 1].path@,
                priority: name_priority(font_name(files[n - 1].path@)),
            },
        )
    } else {
        unique_fonts(files, n - 1)
    }
}

/// The candidates with score `p`, in order.
pub open spec fn with_priority(entries: Seq<FontEntry>, p: int) -> Seq<FontEntry> {
    entries.filter(|e: FontEntry| e.priority == p)
}

/// The candidates with a score below `p`: by score, and in their old
/// order where the scores are equal.
pub open spec fn sorted_below(entries: Seq<FontEntry>, p: int) -> Seq<FontEntry>
    decreases p,
{
    if p <= 0 {
        Seq::empty()
    } else {
        sorted_below(entries, p - 1) + with_priority(entries, p - 1)
    }
}

/// The candidates by score, lowest first, and in their old order where the
/// scores are equal.
pub open spec fn by_priority(entries: Seq<FontEntry>) -> Seq<FontEntry> {
    sorted_below(entries, 256)
}

/// The candidate list that a scan gives: its font files, each once,
/// ordered by score and, among equal scores, as the scan found them.
pub open spec fn discovered(files: Seq<FoundFile>) -> Seq<FontEntry> {
    by_priority(unique_fonts(files, files.len() as int))
}

/// Sorts candidates by score, keeping the order of equal scores: computes
/// `by_priority`.
pub fn sort_by_priority(fonts: &Vec<SystemFontEntry>) -> (sorted: Vec<SystemFontEntry>)
    ensures
        entries_of(sorted@) == by_priority(entries_of(fonts@)),
{
    let ghost entries = entries_of(fonts@);
    let mut sorted: Vec<SystemFontEntry> = Vec::with_capacity(fonts.len());
    let mut p: u16 = 0;
    while p < 256
        invariant
            p <= 256,
            entries == entries_of(fonts@),
            entries_of(sorted@) == sorted_below(entries, p as int),
        decreases 256 - p,
    {
        let ghost below = entries_of(sorted@);
        let mut i: usize = 0;
        assert(entries.take(0) =~= Seq::<FontEntry>::empty());
        assert(with_priority(entries.take(0), p as int) =~= Seq::<FontEntry>::empty()) by {
            reveal(Seq::filter);
        }
        assert(below + Seq::<FontEntry>::empty() =~= below);
        while i < fonts.len()
            invariant
                i <= fonts.len(),
                entries == entries_of(fonts@),
                entries_of(sorted@) == below + with_priority(entries.take(i as int), p as int),
            decreases fonts.len() - i,
        {
            proof {
                reveal(Seq::filter);
                assert(entries.take(i + 1).drop_last() =~= entries.take(i as int));
                assert(entries.take(i + 1).last() == fonts@[i as int]@);
            }
            if fonts[i].priority as u16 == p {
                let ghost before = entries_of(sorted@);
                let entry = SystemFontEntry {
                    path: fonts[i].path.clone(),
                    priority: fonts[i].priority,
                };
                sorted.push(entry);
                assert(entries_of(sorted@) =~= before.push(fonts@[i as int]@));
                assert(entries_of(sorted@) =~= below + with_priority(
                    entries.take(i + 1),
                    p as int,
                ));
            }
            i += 1;
        }
        assert(entries.take(fonts@.len() as int) =~= entries);
        p += 1;
    }
    sorted
}

/// Whether `kept` lists font files among the first `n` files of the scan
/// such that every key of a font file among them is the key of a listed one.
spec fn covers(files: Seq<FoundFile>, kept: Seq<usize>, n: int) -> bool {
    &&& forall|k: int| 0 <= k < kept.len() ==> listed(files, #[trigger] kept[k], n)
    &&& forall|j: int|
        0 <= j < n && is_font_path(files[j].path@) ==> #[trigger] key_kept(
            files,
            kept,
            files[j].key@,
        )
}

/// Whether `index` is a font file among the first `n` files of the scan.
spec fn listed(files: Seq<FoundFile>, index: usize, n: int) -> bool {
    index < n && n <= files.len() && is_font_path(files[index as int].path@)
}

/// Whether `key` is the key of a file that `kept` lists.
spec fn key_kept(files: Seq<FoundFile>, kept: Seq<usize>, key: Seq<char>) -> bool {
    exists|k: int| 0 <= k < kept.len() && files[#[trigger] kept[k] as int].key@ == key
}

/// Whether an earlier font file of the scan has the key of file `i`.
fn seen_before(files: &Vec<FoundFile>, kept: &Vec<usize>, i: usize) -> (seen: bool)
    requires
        i < files.len(),
        covers(files@, kept@, i as int),
    ensures
        seen == key_seen(files@, i as int, files@[i as int].key@),
{
    let ghost key = files@[i as int].key@;
    let mut k: usize = 0;
    while k < kept.len()
        invariant
            k <= kept.len(),
            i < files.len(),
            key == files@[i as int].key@,
            covers(files@, kept@, i as int),
            forall|m: int| 0 <= m < k ==> files@[#[trigger] kept@[m] as int].key@ != key,
        decreases kept.len() - k,
    {
        assert(listed(files@, kept@[k as int], i as int));
        if files[kept[k]].key == files[i].key {
            assert(has_key(files@, kept@[k as int] as int, key));
            return true;
        }
        k += 1;
    }
    proof {
        if key_seen(files@, i as int, key) {
            let j = choose|j: int| 0 <= j < i && #[trigger] has_key(files@, j, key);
            assert(key_kept(files@, kept@, files@[j].key@));
        }
    }
    false
}

/// Builds the candidate list from the files of a scan, in the order in
/// which the scan found them: computes `discovered`.
pub fn discover_system_fonts(files: &Vec<FoundFile>) -> (fonts: Vec<SystemFontEntry>)
    ensures
        entries_of(fonts@) == discovered(files@),
{
    let mut unique: Vec<SystemFontEntry> = Vec::new();
    let mut kept: Vec<usize> = Vec::new();
    let mut i: usize = 0;
    while i < files.len()
        invariant
            i <= files.len(),
            entries_of(unique@) == unique_fonts(files@, i as int),
            covers(files@, kept@, i as int),
        decreases files.len() - i,
    {
        let file = &files[i];
        let first = is_font_file(file.path.as_str()) && !seen_before(files, &kept, i);
        let ghost seen = kept@;
        if first {
            let ghost before = entries_of(unique@);
            let entry = SystemFontEntry {
                path: file.path.clone(),
                priority: font_priority(file.path.as_str()),
            };
            unique.push(entry);
            assert(entries_of(unique@) =~= before.push(entry@));
            kept.push(i);
        }
        proof {
            assert forall|k: int| 0 <= k < kept@.len() implies listed(
                files@,
                #[trigger] kept@[k],
                i + 1,
            ) by {
                if k < seen.len() {
                    assert(listed(files@, seen[k], i as int));
                }
            }
            assert forall|j: int| 0 <= j < i + 1 && is_font_path(files@[j].path@) implies #[trigger] key_kept(
                files@,
                kept@,
                files@[j].key@,
            ) by {
                lemma_kept_grows(files@, seen, kept@, i as int, j, first);
            }
        }
        i += 1;
    }
    sort_by_priority(&unique)
}

/// The keys of the listed files stay covered when a file is taken up.
proof fn lemma_kept_grows(
    files: Seq<FoundFile>,
    seen: Seq<usize>,
    kept: Seq<usize>,
    i: int,
    j: int,
    first: bool,
)
    requires
        0 <= j <= i < files.len(),
        i <= usize::MAX,
        covers(files, seen, i),
        is_font_path(files[j].path@),
        first == is_first_font(files, i),
        kept == if first {
            seen.push(i as usize)
        } else {
            seen
        },
    ensures
        key_kept(files, kept, files[j].key@),
{
    if j < i {
        assert(key_kept(files, seen, files[j].key@));
        let k = choose|k: int| 0 <= k < seen.len() && files[#[trigger] seen[k] as int].key@
            == files[j].key@;
        assert(kept[k] == seen[k]);
    } else if first {
        assert(kept[seen.len() as int] == i);
    } else {
        assert(key_seen(files, i, files[i].key@));
        let m = choose|m: int| 0 <= m < i && #[trigger] has_key(files, m, files[i].key@);
        assert(key_kept(files, seen, files[m].key@));
        let k = choose|k: int| 0 <= k < seen.len() && files[#[trigger] seen[k] as int].key@
            == files[m].key@;
        assert(kept[k] == seen[k]);
    }
}

/// What a font is chosen for.
#[derive(Clone, Copy, Debug, PartialEq, Eq, Structural)]
pub enum FontRole {
    /// The primary font for ordinary text.
    Text,
    /// The font for emoji and other colored glyphs.
    Emoji,
}

/// Whether the font file at `path` may serve in `role`, by its name: emoji,
/// color and symbol fonts never set ordinary text, and only emoji and color
/// fonts are emoji fonts.
pub open spec fn suits(role: FontRole, path: Seq<char>) -> bool {
    let name = font_name(path);
    match role {
        FontRole::Text => !(contains_sub(name, "emoji"@) || contains_sub(name, "color"@)
            || contains_sub(name, "symbol"@)),
        FontRole::Emoji => contains_sub(name, "emoji"@) || contains_sub(name, "color"@),
    }
}

/// Computes `suits`.
pub fn is_suited(role: FontRole, path: &str) -> (r: bool)
    ensures
        r == suits(role, path@),
{
    let name = font_name_of(path);
    let emoji = contains(&name, "emoji") || contains(&name, "color");
    match role {
        FontRole::Text => !(emoji || contains(&name, "symbol")),
        FontRole::Emoji => emoji,
    }
}

/// The first candidate at or after `from` that may serve in `role`. The
/// font for a role is the first such candidate whose file parses; the
/// caller reads the file and asks again from the candidate after it if it
/// does not.
pub fn next_candidate(fonts: &Vec<SystemFontEntry>, role: FontRole, from: usize) -> (next: Option<
    usize,
>)
    ensures
        match next {
            Some(i) => from <= i < fonts.len() && suits(role, fonts@[i as int].path@) && forall|
                j: int,
            |
                from <= j < i ==> !suits(role, #[trigger] fonts@[j].path@),
            None => forall|j: int|
                from <= j < fonts.len() ==> !suits(role, #[trigger] fonts@[j].path@),
        },
{
    let mut i: usize = from;
    while i < fonts.len()
        invariant
            from <= i,
            forall|j: int| from <= j < i ==> !suits(role, #[trigger] fonts@[j].path@),
        decreases fonts.len() - i,
    {
        if is_suited(role, fonts[i].path.as_str()) {
            return Some(i);
        }
        i += 1;
    }
    None
}

/// Every candidate of `sorted_below(entries, p)` scores below `p`, and they
/// stand in the order of their scores.
pub proof fn lemma_sorted_below(entries: Seq<FontEntry>, p: int)
    ensures
        forall|k: int|
            0 <= k < sorted_below(entries, p).len() ==> (#[trigger] sorted_below(
                entries,
                p,
            )[k]).priority < p,
        forall|a: int, b: int|
            0 <= a <= b < sorted_below(entries, p).len() ==> (#[trigger] sorted_below(
                entries,
                p,
            )[a]).priority <= (#[trigger] sorted_below(entries, p)[b]).priority,
    decreases p,
{
    if p > 0 {
        lemma_sorted_below(entries, p - 1);
        let below = sorted_below(entries, p - 1);
        let equal = with_priority(entries, p - 1);
        let all = sorted_below(entries, p);
        assert forall|k: int| 0 <= k < equal.len() implies (#[trigger] equal[k]).priority == p
            - 1 by {
            entries.lemma_filter_pred(|e: FontEntry| e.priority == p - 1, k);
        }
        assert forall|k: int| 0 <= k < all.len() implies (#[trigger] all[k]).priority < p by {
            if k < below.len() {
                assert(all[k] == below[k]);
            } else {
                assert(all[k] == equal[k - below.len()]);
            }
        }
        assert forall|a: int, b: int| 0 <= a <= b < all.len() implies (#[trigger] all[a]).priority
            <= (#[trigger] all[b]).priority by {
            if a < below.len() {
                assert(all[a] == below[a]);
            } else {
                assert(all[a] == equal[a - below.len()]);
            }
            if b < below.len() {
                assert(all[b] == below[b]);
            } else {
                assert(all[b] == equal[b - below.len()]);
            }
        }
    }
}

/// Filtering by one score what was filtered by another.
proof fn lemma_filter_twice(entries: Seq<FontEntry>, p: int, q: int)
    ensures
        with_priority(with_priority(entries, q), p) == if p == q {
            with_priority(entries, p)
        } else {
            Seq::empty()
        },
    decreases entries.len(),
{
    reveal(Seq::filter);
    if entries.len() > 0 {
        lemma_filter_twice(entries.drop_last(), p, q);
        let front = with_priority(entries.drop_last(), q);
        if entries.last().priority == q {
            assert(front.push(entries.last()).drop_last() =~= front);
        }
    }
}

/// Among the candidates that score below `q`, those with score `p` are the
/// candidates with score `p` in their old order.
proof fn lemma_sorted_below_keeps(entries: Seq<FontEntry>, q: int, p: int)
    ensures
        with_priority(sorted_below(entries, q), p) == if 0 <= p < q {
            with_priority(entries, p)
        } else {
            Seq::empty()
        },
    decreases q,
{
    if q <= 0 {
        reveal(Seq::filter);
    } else {
        lemma_sorted_below_keeps(entries, q - 1, p);
        lemma_filter_twice(entries, p, q - 1);
        Seq::filter_distributes_over_add(
            sorted_below(entries, q - 1),
            with_priority(entries, q - 1),
            |e: FontEntry| e.priority == p,
        );
        if p == q - 1 {
            assert(Seq::<FontEntry>::empty() + with_priority(entries, p) =~= with_priority(
                entries,
                p,
            ));
        } else {
            assert(with_priority(sorted_below(entries, q - 1), p) + Seq::<FontEntry>::empty()
                =~= with_priority(sorted_below(entries, q - 1), p));
        }
    }
}

/// The candidate list is sorted and the sort is stable: scores never fall
/// along the list, and for every score the candidates with that score are
/// the same, in the same order, as before the sort.
pub proof fn lemma_by_priority_is_stable_sort(entries: Seq<FontEntry>, p: u8)
    ensures
        forall|a: int, b: int|
            0 <= a <= b < by_priority(entries).len() ==> (#[trigger] by_priority(
                entries,
            )[a]).priority <= (#[trigger] by_priority(entries)[b]).priority,
        with_priority(by_priority(entries), p as int) == with_priority(entries, p as int),
{
    lemma_sorted_below(entries, 256);
    lemma_sorted_below_keeps(entries, 256, p as int);
}

/// A candidate with a lower score stands before every candidate with a
/// higher one: the preferred font sorts first.
pub proof fn lemma_lower_score_sorts_first(entries: Seq<FontEntry>, a: int, b: int)
    requires
        0 <= a < by_priority(entries).len(),
        0 <= b < by_priority(entries).len(),
        by_priority(entries)[a].priority < by_priority(entries)[b].priority,
    ensures
        a < b,
{
    lemma_sorted_below(entries, 256);
}

} // verus!
