//! Where fonts are looked for: the directories to scan, and the
//! directories that a font configuration file names.

use crate::render::chars::{chars_of, find, find_sub, lemma_find_sub, texts};
use vstd::prelude::*;
use vstd::string::StrSliceExecFns;
use vstd::string::StringExecFns;

verus! {

/// Whether `c` is white space, as in Unicode.
pub open spec fn is_space(c: char) -> bool {
    ||| ('\u{9}' <= c && c <= '\u{d}')
    ||| c == ' '
    ||| c == '\u{85}'
    ||| c == '\u{a0}'
    ||| c == '\u{1680}'
    ||| ('\u{2000}' <= c && c <= '\u{200a}')
    ||| c == '\u{2028}'
    ||| c == '\u{2029}'
    ||| c == '\u{202f}'
    ||| c == '\u{205f}'
    ||| c == '\u{3000}'
}

/// Computes `is_space`.
fn is_white(c: char) -> (r: bool)
    ensures
        r == is_space(c),
{
    ('\u{9}' <= c && c <= '\u{d}') || c == ' ' || c == '\u{85}' || c == '\u{a0}' || c
        == '\u{1680}' || ('\u{2000}' <= c && c <= '\u{200a}') || c == '\u{2028}' || c
        == '\u{2029}' || c == '\u{202f}' || c == '\u{205f}' || c == '\u{3000}'
}

/// The first index in `from..to` whose character is no white space; `to`
/// if there is none.
pub open spec fn skip_spaces(s: Seq<char>, from: int, to: int) -> int
    decreases to - from,
{
    if from < to && 0 <= from < s.len() && is_space(s[from]) {
        skip_spaces(s, from + 1, to)
    } else {
        from
    }
}

/// One past the last index in `from..to` whose character is no white
/// space; `from` if there is none.
pub open spec fn drop_spaces(s: Seq<char>, from: int, to: int) -> int
    decreases to - from,
{
    if from < to && 0 < to <= s.len() && is_space(s[to - 1]) {
        drop_spaces(s, from, to - 1)
    } else {
        to
    }
}

/// `s` from `from` up to `to` without the white space at both ends.
pub open spec fn trimmed(s: Seq<char>, from: int, to: int) -> Seq<char> {
    let start = skip_spaces(s, from, to);
    s.subrange(start, drop_spaces(s, start, to))
}

/// `base` with `rel` below it, as one path. A `rel` that starts at the
/// root stands for itself.
pub open spec fn join_path(base: Seq<char>, rel: Seq<char>) -> Seq<char> {
    if rel.len() > 0 && rel[0] == '/' {
        rel
    } else if base.len() == 0 || base.last() == '/' {
        base + rel
    } else {
        base + "/"@ + rel
    }
}

/// Computes `join_path`.
pub fn join(base: &str, rel: &str) -> (path: String)
    ensures
        path@ == join_path(base@, rel@),
{
    let rel_len = rel.unicode_len();
    if rel_len > 0 && rel.get_char(0) == '/' {
        return rel.to_owned();
    }
    let base_len = base.unicode_len();
    let mut path = base.to_owned();
    if base_len > 0 && base.get_char(base_len - 1) != '/' {
        path.append("/");
    }
    path.append(rel);
    path
}

/// A directory from a configuration file as a path: a leading `~` stands
/// for the home directory, and without a home directory such an entry
/// names nothing.
pub open spec fn expand_home(dir: Seq<char>, home: Option<Seq<char>>) -> Option<Seq<char>> {
    if dir.len() > 0 && dir[0] == '~' {
        match home {
            Some(h) => {
                let rest = dir.drop_first();
                Some(
                    join_path(
                        h,
                        if rest.len() > 0 && rest[0] == '/' {
                            rest.drop_first()
                        } else {
                            rest
                        },
                    ),
                )
            },
            None => None,
        }
    } else {
        Some(dir)
    }
}

/// The element that opens a directory entry.
pub open spec fn open_tag() -> Seq<char> {
    "<dir>"@
}

/// The element that closes a directory entry.
pub open spec fn close_tag() -> Seq<char> {
    "</dir>"@
}

/// The directories that the configuration text names from index `from`
/// on: what stands between each opening element and the next closing one,
/// trimmed and with the home directory filled in. An opening element
/// without a closing one ends the list.
pub open spec fn config_dirs(text: Seq<char>, home: Option<Seq<char>>, from: int) -> Seq<Seq<char>>
    decreases text.len() - from,
{
    match find_sub(text, open_tag(), from) {
        Some(start) => match find_sub(text, close_tag(), start + open_tag().len()) {
            Some(end) => if from <= start && start + open_tag().len() <= end && end
                + close_tag().len() <= text.len() && close_tag().len() > 0 {
                let rest = config_dirs(text, home, end + close_tag().len());
                match expand_home(trimmed(text, start + open_tag().len(), end), home) {
                    Some(dir) => seq![dir] + rest,
                    None => rest,
                }
            } else {
                Seq::empty()
            },
            None => Seq::empty(),
        },
        None => Seq::empty(),
    }
}

/// The bounds of `trimmed`.
fn trim_bounds(s: &Vec<char>, from: usize, to: usize) -> (r: (usize, usize))
    requires
        from <= to <= s.len(),
    ensures
        from <= r.0 <= r.1 <= to,
        r.0 == skip_spaces(s@, from as int, to as int),
        r.1 == drop_spaces(s@, r.0 as int, to as int),
{
    let mut start: usize = from;
    while start < to && is_white(s[start])
        invariant
            from <= start <= to <= s.len(),
            skip_spaces(s@, from as int, to as int) == skip_spaces(s@, start as int, to as int),
        decreases to - start,
    {
        start += 1;
    }
    let mut end: usize = to;
    while start < end && is_white(s[end - 1])
        invariant
            start <= end <= to <= s.len(),
            drop_spaces(s@, start as int, to as int) == drop_spaces(s@, start as int, end as int),
        decreases end - start,
    {
        end -= 1;
    }
    (start, end)
}

/// Adds to `dirs` the directories that the text of a font configuration
/// file names, in order.
pub fn parse_fontconfig_file(content: &str, home: Option<&str>, dirs: &mut Vec<String>)
    ensures
        texts(final(dirs)@) == texts(old(dirs)@) + config_dirs(
            content@,
            match home {
                Some(h) => Some(h@),
                None => None,
            },
            0,
        ),
{
    let chars = chars_of(content);
    let open = chars_of("<dir>");
    let close = chars_of("</dir>");
    let ghost home_text: Option<Seq<char>> = match home {
        Some(h) => Some(h@),
        None => None,
    };
    let ghost given = texts(dirs@);
    let mut from: usize = 0;
    assert(texts(dirs@) + config_dirs(chars@, home_text, 0) == given + config_dirs(
        chars@,
        home_text,
        0,
    ));
    loop
        invariant
            from <= chars.len(),
            chars@ == content@,
            open@ == open_tag(),
            close@ == close_tag(),
            home_text == match home {
                Some(h) => Some(h@),
                None => None,
            },
            texts(dirs@) + config_dirs(chars@, home_text, from as int) == given + config_dirs(
                chars@,
                home_text,
                0,
            ),
        ensures
            texts(dirs@) == given + config_dirs(chars@, home_text, 0),
        decreases chars.len() - from,
    {
        proof {
            lemma_find_sub(chars@, open@, from as int);
        }
        let start = match find(&chars, &open, from) {
            Some(start) => start,
            None => {
                assert(texts(dirs@) + Seq::<Seq<char>>::empty() =~= texts(dirs@));
                break ;
            },
        };
        let after: usize = start + open.len();
        proof {
            lemma_find_sub(chars@, close@, after as int);
        }
        let end = match find(&chars, &close, after) {
            Some(end) => end,
            None => {
                assert(texts(dirs@) + Seq::<Seq<char>>::empty() =~= texts(dirs@));
                break ;
            },
        };
        if close.len() == 0 {
            assert(texts(dirs@) + Seq::<Seq<char>>::empty() =~= texts(dirs@));
            break ;
        }
        let (a, b) = trim_bounds(&chars, after, end);
        let ghost dir = trimmed(chars@, after as int, end as int);
        let ghost rest = config_dirs(chars@, home_text, end + close.len());
        let ghost before = texts(dirs@);
        if a < b && chars[a] == '~' {
            if let Some(h) = home {
                let skip: usize = if a + 1 < b && chars[a + 1] == '/' {
                    a + 2
                } else {
                    a + 1
                };
                let tail = content.substring_char(skip, b);
                proof {
                    let whole = dir.drop_first();
                    assert(whole =~= chars@.subrange(a + 1, b as int));
                    if whole.len() > 0 && whole[0] == '/' {
                        assert(whole.drop_first() =~= chars@.subrange(a + 2, b as int));
                    }
                }
                let path = join(h, tail);
                dirs.push(path);
                proof {
                    assert(texts(dirs@) =~= before + seq![path@]);
                    assert(before + (seq![path@] + rest) =~= (before + seq![path@]) + rest);
                }
            }
        } else {
            let piece = content.substring_char(a, b);
            let path = piece.to_owned();
            dirs.push(path);
            proof {
                assert(texts(dirs@) =~= before + seq![path@]);
                assert(before + (seq![path@] + rest) =~= (before + seq![path@]) + rest);
            }
        }
        from = end + close.len();
    }
}

/// The parts of `s` between its colons, empty parts included.
pub open spec fn split_colons(s: Seq<char>) -> Seq<Seq<char>>
    decreases s.len(),
{
    let colon = first_colon(s);
    if colon < 0 || colon >= s.len() {
        seq![s]
    } else {
        seq![s.subrange(0, colon)] + split_colons(s.subrange(colon + 1, s.len() as int))
    }
}

/// The index of the first colon in `s`, or the length of `s`.
pub open spec fn first_colon(s: Seq<char>) -> int
    decreases s.len(),
{
    if s.len() == 0 || s[0] == ':' {
        0
    } else {
        1 + first_colon(s.drop_first())
    }
}

/// The font directories below the home directory.
pub open spec fn home_font_dirs(home: Option<Seq<char>>) -> Seq<Seq<char>> {
    match home {
        Some(h) => seq![
            join_path(h, ".fonts"@),
            join_path(h, ".local/share/fonts"@),
            join_path(h, ".nix-profile/share/fonts"@),
        ],
        None => Seq::empty(),
    }
}

/// The font directories below each of the data directories in `parts`.
pub open spec fn data_font_dirs(parts: Seq<Seq<char>>) -> Seq<Seq<char>>
    decreases parts.len(),
{
    if parts.len() == 0 {
        Seq::empty()
    } else {
        data_font_dirs(parts.drop_last()) + seq![
            join_path(parts.last(), "fonts"@),
            join_path(parts.last(), "X11/fonts"@),
        ]
    }
}

/// The directories that are scanned for fonts, in order: the system's,
/// those below the home directory, those below each data directory of the
/// colon-separated search path, and those that the font configuration
/// names.
pub open spec fn search_dirs(
    home: Option<Seq<char>>,
    data_dirs: Option<Seq<char>>,
    configured: Seq<Seq<char>>,
) -> Seq<Seq<char>> {
    seq!["/usr/share/fonts"@, "/usr/local/share/fonts"@] + home_font_dirs(home) + match data_dirs {
        Some(list) => data_font_dirs(split_colons(list)),
        None => Seq::empty(),
    } + configured
}

proof fn lemma_first_colon(s: Seq<char>)
    ensures
        0 <= first_colon(s) <= s.len(),
        first_colon(s) < s.len() ==> s[first_colon(s)] == ':',
        forall|j: int| 0 <= j < first_colon(s) ==> s[j] != ':',
    decreases s.len(),
{
    if s.len() == 0 || s[0] == ':' {
    } else {
        let rest = s.drop_first();
        lemma_first_colon(rest);
        assert forall|j: int| 0 <= j < first_colon(s) implies s[j] != ':' by {
            if j > 0 {
                assert(rest[j - 1] == s[j]);
            }
        }
    }
}

/// Computes `search_dirs`.
pub fn font_search_dirs(home: Option<&str>, data_dirs: Option<&str>, configured: &Vec<String>) -> (dirs:
    Vec<String>)
    ensures
        texts(dirs@) == search_dirs(
            match home {
                Some(h) => Some(h@),
                None => None,
            },
            match data_dirs {
                Some(list) => Some(list@),
                None => None,
            },
            texts(configured@),
        ),
{
    let mut dirs: Vec<String> = Vec::new();
    dirs.push("/usr/share/fonts".to_owned());
    dirs.push("/usr/local/share/fonts".to_owned());
    assert(texts(dirs@) =~= seq!["/usr/share/fonts"@, "/usr/local/share/fonts"@]);
    let ghost fixed = texts(dirs@);
    if let Some(h) = home {
        dirs.push(join(h, ".fonts"));
        dirs.push(join(h, ".local/share/fonts"));
        dirs.push(join(h, ".nix-profile/share/fonts"));
    }
    assert(texts(dirs@) =~= fixed + home_font_dirs(
        match home {
            Some(h) => Some(h@),
            None => None,
        },
    ));
    let ghost homed = texts(dirs@);
    if let Some(list) = data_dirs {
        let chars = chars_of(list);
        let mut start: usize = 0;
        let ghost mut parts: Seq<Seq<char>> = Seq::empty();
        assert(chars@.subrange(0, chars@.len() as int) =~= chars@);
        assert(homed + data_font_dirs(parts) =~= homed);
        loop
            invariant_except_break
                texts(dirs@) == homed + data_font_dirs(parts),
                parts + split_colons(chars@.subrange(start as int, chars@.len() as int))
                    == split_colons(chars@),
            invariant
                start <= chars.len(),
                chars@ == list@,
            ensures
                texts(dirs@) == homed + data_font_dirs(split_colons(list@)),
            decreases chars.len() - start,
        {
            let ghost rest = chars@.subrange(start as int, chars@.len() as int);
            proof {
                lemma_first_colon(rest);
            }
            let mut end: usize = start;
            while end < chars.len() && chars[end] != ':'
                invariant
                    start <= end <= chars.len(),
                    forall|j: int| start <= j < end ==> chars@[j] != ':',
                decreases chars.len() - end,
            {
                end += 1;
            }
            proof {
                let e = first_colon(rest);
                if e < end - start {
                    assert(rest[e] == chars@[start + e]);
                } else if e > end - start {
                    assert(rest[end - start] == chars@[end as int]);
                }
                assert(e == end - start);
            }
            let part = list.substring_char(start, end);
            let ghost before = texts(dirs@);
            dirs.push(join(part, "fonts"));
            dirs.push(join(part, "X11/fonts"));
            proof {
                let piece = rest.subrange(0, end - start);
                assert(piece =~= chars@.subrange(start as int, end as int));
                assert(parts.push(part@).drop_last() =~= parts);
                assert(texts(dirs@) =~= before + seq![
                    join_path(part@, "fonts"@),
                    join_path(part@, "X11/fonts"@),
                ]);
                assert(texts(dirs@) =~= homed + data_font_dirs(parts.push(part@)));
            }
            if end == chars.len() {
                proof {
                    assert(rest.subrange(0, rest.len() as int) =~= rest);
                    assert(split_colons(rest) =~= seq![rest]);
                    assert(parts + seq![rest] =~= parts.push(part@));
                    assert(parts.push(part@) == split_colons(chars@));
                }
                break ;
            }
            proof {
                let tail = rest.subrange(end - start + 1, rest.len() as int);
                assert(tail =~= chars@.subrange(end + 1, chars@.len() as int));
                assert(parts + (seq![part@] + split_colons(tail)) =~= parts.push(part@)
                    + split_colons(tail));
                parts = parts.push(part@);
            }
            start = end + 1;
        }
    }
    let ghost scanned = texts(dirs@);
    let mut i: usize = 0;
    while i < configured.len()
        invariant
            i <= configured.len(),
            texts(dirs@) == scanned + texts(configured@).take(i as int),
        decreases configured.len() - i,
    {
        let ghost before = texts(dirs@);
        let dir = configured[i].clone();
        dirs.push(dir);
        i += 1;
        assert(texts(dirs@) =~= before.push(dir@));
        assert(texts(configured@).take(i as int) =~= texts(configured@).take(i - 1).push(dir@));
        assert(texts(dirs@) =~= scanned + texts(configured@).take(i as int));
    }
    assert(texts(configured@).take(configured@.len() as int) =~= texts(configured@));
    assert(scanned + Seq::<Seq<char>>::empty() =~= scanned);
    dirs
}

} // verus!
