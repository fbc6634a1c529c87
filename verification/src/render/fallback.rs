//! Fallback fonts for characters that the primary and emoji fonts lack.
//!
//! The cache has one slot for each font candidate, in candidate order. A
//! font stays in memory only once it has had a character that was asked
//! for; a file that is no font is never read again. Reading a file is left
//! to the caller: the cache says which file it wants next and is told what
//! was read.

use crate::render::face::{copy_of, glyph_index, is_font, FontFace};
use vstd::prelude::*;

verus! {

/// One slot of the cache.
pub struct CachedFont {
    font: Option<FontFace>,
    load_failed: bool,
}

/// The fallback cache.
pub struct FallbackCache {
    entries: Vec<CachedFont>,
}

/// The state of a slot.
pub ghost enum Slot {
    /// Not in memory; its file may be read.
    Open,
    /// Its file could not be read or is no font; it is never tried again.
    Failed,
    /// In memory, with the bytes of its file.
    Resident(Seq<u8>),
}

/// What the search for a fallback font does next.
#[derive(Clone, Copy, Debug, PartialEq, Eq, Structural)]
pub enum FallbackStep {
    /// The font in this slot has the character.
    Found(usize),
    /// The file of this candidate is to be read and handed to `resume`.
    Load(usize),
    /// No font has the character.
    Absent,
}

/// Whether the font resident in `slot` has a glyph for `c`.
pub open spec fn serves(slot: Slot, c: char) -> bool {
    slot matches Slot::Resident(data) && glyph_index(data, c) != 0
}

/// The first slot at or after `from` whose resident font has `c`.
pub open spec fn first_serving(slots: Seq<Slot>, c: char, from: int) -> Option<int>
    decreases slots.len() - from,
{
    if from < 0 || from >= slots.len() {
        None
    } else if serves(slots[from], c) {
        Some(from)
    } else {
        first_serving(slots, c, from + 1)
    }
}

/// The first open slot at or after `from`.
pub open spec fn next_open(slots: Seq<Slot>, from: int) -> Option<int>
    decreases slots.len() - from,
{
    if from < 0 || from >= slots.len() {
        None
    } else if slots[from] is Open {
        Some(from)
    } else {
        next_open(slots, from + 1)
    }
}

/// The step that goes on with the open slots from `from`.
pub open spec fn load_from(slots: Seq<Slot>, from: int) -> FallbackStep {
    match next_open(slots, from) {
        Some(i) => FallbackStep::Load(i as usize),
        None => FallbackStep::Absent,
    }
}

/// How a search starts: with the fonts in memory, in candidate order; only
/// if none of them has the character, with the first open slot.
pub open spec fn first_step(slots: Seq<Slot>, c: char) -> FallbackStep {
    match first_serving(slots, c, 0) {
        Some(i) => FallbackStep::Found(i as usize),
        None => load_from(slots, 0),
    }
}

/// Whether `data`, as read from a file, is a font that has `c`.
pub open spec fn file_serves(data: Option<Seq<u8>>, c: char) -> bool {
    data matches Some(bytes) && is_font(bytes) && glyph_index(bytes, c) != 0
}

/// The slots after the file of `slot` was read in a search for `c`: a file
/// that is no font marks the slot as failed, a font with the character
/// stays in memory, a font without it is dropped again.
pub open spec fn slots_after(slots: Seq<Slot>, slot: int, data: Option<Seq<u8>>, c: char) -> Seq<Slot> {
    if !(0 <= slot < slots.len() && slots[slot] is Open) {
        slots
    } else {
        match data {
            Some(bytes) => if !is_font(bytes) {
                slots.update(slot, Slot::Failed)
            } else if glyph_index(bytes, c) != 0 {
                slots.update(slot, Slot::Resident(bytes))
            } else {
                slots
            },
            None => slots.update(slot, Slot::Failed),
        }
    }
}

/// The step after the file of `slot` was read in a search for `c`.
pub open spec fn step_after(slots: Seq<Slot>, slot: int, data: Option<Seq<u8>>, c: char) -> FallbackStep {
    if 0 <= slot < slots.len() && slots[slot] is Open && file_serves(data, c) {
        FallbackStep::Found(slot as usize)
    } else {
        load_from(slots_after(slots, slot, data, c), slot + 1)
    }
}

/// What `first_serving` returns: the least slot at or after `from` whose
/// resident font has the character.
pub proof fn lemma_first_serving(slots: Seq<Slot>, c: char, from: int)
    requires
        0 <= from,
    ensures
        match first_serving(slots, c, from) {
            Some(i) => from <= i < slots.len() && serves(slots[i], c) && forall|j: int|
                from <= j < i ==> !serves(slots[j], c),
            None => forall|j: int| from <= j < slots.len() ==> !serves(slots[j], c),
        },
    decreases slots.len() - from,
{
    if from < slots.len() && !serves(slots[from], c) {
        lemma_first_serving(slots, c, from + 1);
    }
}

/// What `next_open` returns: the least open slot at or after `from`.
pub proof fn lemma_next_open(slots: Seq<Slot>, from: int)
    requires
        0 <= from,
    ensures
        match next_open(slots, from) {
            Some(i) => from <= i < slots.len() && slots[i] is Open && forall|j: int|
                from <= j < i ==> !(slots[j] is Open),
            None => forall|j: int| from <= j < slots.len() ==> !(slots[j] is Open),
        },
    decreases slots.len() - from,
{
    if from < slots.len() && !(slots[from] is Open) {
        lemma_next_open(slots, from + 1);
    }
}

impl FallbackCache {
    /// The state of each slot, in candidate order.
    pub closed spec fn slots(&self) -> Seq<Slot> {
        Seq::new(
            self.entries@.len(),
            |i: int|
                if self.entries@[i].load_failed {
                    Slot::Failed
                } else {
                    match self.entries@[i].font {
                        Some(face) => Slot::Resident(face.data()),
                        None => Slot::Open,
                    }
                },
        )
    }

    /// A cache with `candidates` open slots.
    pub fn new(candidates: usize) -> (cache: FallbackCache)
        ensures
            cache.slots() == Seq::new(candidates as nat, |i: int| Slot::Open),
    {
        let mut entries: Vec<CachedFont> = Vec::with_capacity(candidates);
        let mut i: usize = 0;
        while i < candidates
            invariant
                i <= candidates,
                entries.len() == i,
                forall|j: int| 0 <= j < i ==> entries@[j].font is None && !entries@[j].load_failed,
            decreases candidates - i,
        {
            entries.push(CachedFont { font: None, load_failed: false });
            i += 1;
        }
        let cache = FallbackCache { entries };
        assert(cache.slots() =~= Seq::new(candidates as nat, |i: int| Slot::Open));
        cache
    }

    /// The number of slots.
    pub fn len(&self) -> (n: usize)
        ensures
            n == self.slots().len(),
    {
        self.entries.len()
    }

    /// The first open slot at or after `from`.
    fn pending(&self, from: usize) -> (step: FallbackStep)
        ensures
            step == load_from(self.slots(), from as int),
    {
        let mut i: usize = from;
        while i < self.entries.len()
            invariant
                from <= i,
                load_from(self.slots(), from as int) == load_from(self.slots(), i as int),
            decreases self.entries.len() - i,
        {
            if self.entries[i].font.is_none() && !self.entries[i].load_failed {
                return FallbackStep::Load(i);
            }
            i += 1;
        }
        FallbackStep::Absent
    }

    /// Starts the search for a font that has `c`: computes `first_step`.
    pub fn begin(&self, c: char) -> (step: FallbackStep)
        ensures
            step == first_step(self.slots(), c),
    {
        let mut i: usize = 0;
        while i < self.entries.len()
            invariant
                first_serving(self.slots(), c, 0) == first_serving(self.slots(), c, i as int),
            decreases self.entries.len() - i,
        {
            if !self.entries[i].load_failed {
                if let Some(face) = &self.entries[i].font {
                    if face.has_glyph(c) {
                        return FallbackStep::Found(i);
                    }
                }
            }
            i += 1;
        }
        self.pending(0)
    }

    /// Goes on with the search for `c` after the file of `slot` was read;
    /// `data` is nothing where it could not be read. Computes `step_after`
    /// and leaves the cache as `slots_after` says.
    pub fn resume(&mut self, slot: usize, data: Option<Vec<u8>>, c: char) -> (step: FallbackStep)
        ensures
            final(self).slots() == slots_after(
                old(self).slots(),
                slot as int,
                match data {
                    Some(bytes) => Some(bytes@),
                    None => None,
                },
                c,
            ),
            step == step_after(
                old(self).slots(),
                slot as int,
                match data {
                    Some(bytes) => Some(bytes@),
                    None => None,
                },
                c,
            ),
    {
        let ghost before = self.slots();
        if slot >= self.entries.len() {
            return FallbackStep::Absent;
        }
        let open = self.entries[slot].font.is_none() && !self.entries[slot].load_failed;
        if open {
            let parsed = match data {
                Some(bytes) => FontFace::parse(bytes),
                None => None,
            };
            match parsed {
                Some(face) => {
                    if face.has_glyph(c) {
                        self.entries.set(slot, CachedFont { font: Some(face), load_failed: false });
                        assert(self.slots() =~= before.update(
                            slot as int,
                            Slot::Resident(face.data()),
                        ));
                        return FallbackStep::Found(slot);
                    }
                    assert(self.slots() =~= before);
                },
                None => {
                    self.entries.set(slot, CachedFont { font: None, load_failed: true });
                    assert(self.slots() =~= before.update(slot as int, Slot::Failed));
                },
            }
        }
        if slot == usize::MAX {
            return FallbackStep::Absent;
        }
        self.pending(slot + 1)
    }

    /// The font in `slot`, if one is in memory there.
    pub fn font(&self, slot: usize) -> (face: Option<FontFace>)
        ensures
            match face {
                Some(f) => slot < self.slots().len() && self.slots()[slot as int]
                    == Slot::Resident(f.data()),
                None => slot >= self.slots().len() || !(self.slots()[slot as int] is Resident),
            },
    {
        if slot >= self.entries.len() || self.entries[slot].load_failed {
            return None;
        }
        match &self.entries[slot].font {
            Some(face) => Some(face.share()),
            None => None,
        }
    }
}

/// What reading each file gives, as plain values.
pub open spec fn contents_of(files: Seq<Option<Vec<u8>>>) -> Seq<Option<Seq<u8>>> {
    Seq::new(
        files.len(),
        |i: int|
            match files[i] {
                Some(bytes) => Some(bytes@),
                None => None,
            },
    )
}

impl FallbackCache {
    /// Looks for a font that has `c`, where the files of the candidates
    /// were read already: `files` holds what reading each gave. Runs the
    /// whole search and returns the slot of the font that has the
    /// character: computes `search`.
    pub fn find_fallback_for_char(&mut self, files: &Vec<Option<Vec<u8>>>, c: char) -> (found:
        Option<usize>)
        ensures
            match found {
                Some(slot) => search(old(self).slots(), contents_of(files@), c).0 == Some(
                    slot as int,
                ),
                None => search(old(self).slots(), contents_of(files@), c).0 is None,
            },
            final(self).slots() == search(old(self).slots(), contents_of(files@), c).1,
    {
        let ghost contents = contents_of(files@);
        let ghost goal = search(self.slots(), contents, c);
        let count = self.len();
        let mut step = self.begin(c);
        proof {
            lemma_first_serving(self.slots(), c, 0);
            lemma_next_open(self.slots(), 0);
        }
        loop
            invariant
                contents == contents_of(files@),
                goal == search(old(self).slots(), contents, c),
                search_from(self.slots(), contents, c, step) == goal,
                self.slots().len() == count,
                step matches FallbackStep::Load(i) ==> i < self.slots().len(),
                step matches FallbackStep::Found(i) ==> i < self.slots().len(),
            decreases
                self.slots().len() - match step {
                    FallbackStep::Load(i) => i as int,
                    _ => self.slots().len() as int,
                },
        {
            match step {
                FallbackStep::Found(slot) => {
                    return Some(slot);
                },
                FallbackStep::Absent => {
                    return None;
                },
                FallbackStep::Load(slot) => {
                    let ghost before = self.slots();
                    let data = if slot < files.len() {
                        copy_of(&files[slot])
                    } else {
                        None
                    };
                    let ghost read = if slot < contents.len() {
                        contents[slot as int]
                    } else {
                        None
                    };
                    assert(read == match data {
                        Some(bytes) => Some(bytes@),
                        None => None,
                    });
                    step = self.resume(slot, data, c);
                    proof {
                        lemma_next_open(slots_after(before, slot as int, read, c), slot + 1);
                        assert(self.slots().len() == before.len());
                    }
                },
            }
        }
    }
}

/// A whole search for `c` from `step` on, where `files` holds what reading
/// each candidate's file gives: the slot of the font that was found, if
/// any, and the slots as the search leaves them.
pub open spec fn search_from(
    slots: Seq<Slot>,
    files: Seq<Option<Seq<u8>>>,
    c: char,
    step: FallbackStep,
) -> (Option<int>, Seq<Slot>)
    decreases
        slots.len() - match step {
            FallbackStep::Load(i) => i as int,
            _ => slots.len() as int,
        },
{
    match step {
        FallbackStep::Found(i) => (Some(i as int), slots),
        FallbackStep::Absent => (None, slots),
        FallbackStep::Load(i) => {
            let data = if i < files.len() {
                files[i as int]
            } else {
                None
            };
            let next = step_after(slots, i as int, data, c);
            let progress = match next {
                FallbackStep::Load(j) => i < j < slots.len(),
                _ => true,
            };
            if i < slots.len() && slots.len() == slots_after(slots, i as int, data, c).len()
                && progress {
                search_from(slots_after(slots, i as int, data, c), files, c, next)
            } else {
                (None, slots)
            }
        },
    }
}

/// A whole search for a fallback font for `c`.
pub open spec fn search(slots: Seq<Slot>, files: Seq<Option<Seq<u8>>>, c: char) -> (
    Option<int>,
    Seq<Slot>,
) {
    search_from(slots, files, c, first_step(slots, c))
}

/// A font that is in memory and has the character is found at once, with
/// no file read: the search starts with the fonts in memory.
pub proof fn lemma_resident_font_is_found_first(slots: Seq<Slot>, slot: int, c: char)
    requires
        0 <= slot < slots.len(),
        slot <= usize::MAX,
        serves(slots[slot], c),
    ensures
        first_step(slots, c) matches FallbackStep::Found(i) && i <= slot && serves(
            slots[i as int],
            c,
        ),
{
    lemma_first_serving(slots, c, 0);
}

/// A font that was found for one character is kept: a later search for
/// another character that it has is served from memory and reads no file.
pub proof fn lemma_found_font_is_retained(
    slots: Seq<Slot>,
    slot: int,
    data: Option<Seq<u8>>,
    c: char,
    other: char,
)
    requires
        slot <= usize::MAX,
        step_after(slots, slot, data, c) == FallbackStep::Found(slot as usize),
        0 <= slot < slots.len() && slots[slot] is Open,
        file_serves(data, other),
    ensures
        first_step(slots_after(slots, slot, data, c), other) matches FallbackStep::Found(i) && i
            <= slot,
{
    let after = slots_after(slots, slot, data, c);
    lemma_next_open(after, slot + 1);
    assert(file_serves(data, c));
    assert(after[slot] == Slot::Resident(data->0));
    lemma_resident_font_is_found_first(after, slot, other);
}

/// The search tries every open slot until a font has the character.
proof fn lemma_search_from_finds(
    slots: Seq<Slot>,
    files: Seq<Option<Seq<u8>>>,
    c: char,
    from: int,
    good: int,
)
    requires
        slots.len() <= usize::MAX,
        0 <= from <= good < slots.len(),
        good < files.len(),
        slots[good] is Open,
        file_serves(files[good], c),
    ensures
        ({
            let end = search_from(slots, files, c, load_from(slots, from));
            end.0 matches Some(k) && 0 <= k <= good && serves(end.1[k], c)
        }),
    decreases good - from,
{
    lemma_next_open(slots, from);
    let i = next_open(slots, from)->0;
    let data = if i < files.len() {
        files[i]
    } else {
        None
    };
    let after = slots_after(slots, i, data, c);
    let next = step_after(slots, i, data, c);
    let step = load_from(slots, from);
    assert(step == FallbackStep::Load(i as usize));
    assert((i as usize) as int == i);
    assert(after.len() == slots.len());
    if file_serves(data, c) {
        assert(after[i] == Slot::Resident(data->0));
        assert(next == FallbackStep::Found(i as usize));
        assert(search_from(after, files, c, next) == (Some(i), after));
        assert(search_from(slots, files, c, step) == search_from(after, files, c, next));
    } else {
        assert(i < good);
        assert(after[good] is Open);
        lemma_next_open(after, i + 1);
        assert(next == load_from(after, i + 1));
        let j = next_open(after, i + 1)->0;
        assert(next == FallbackStep::Load(j as usize));
        assert((j as usize) as int == j);
        assert(search_from(slots, files, c, step) == search_from(after, files, c, next));
        lemma_search_from_finds(after, files, c, i + 1, good);
    }
}

/// A character that some candidate font has is found: if the file of an
/// open slot is a font with the character, the search ends with a font in
/// memory that has it.
pub proof fn lemma_search_finds_available_font(
    slots: Seq<Slot>,
    files: Seq<Option<Seq<u8>>>,
    c: char,
    good: int,
)
    requires
        slots.len() <= usize::MAX,
        0 <= good < slots.len(),
        good < files.len(),
        slots[good] is Open,
        file_serves(files[good], c),
    ensures
        search(slots, files, c).0 matches Some(k) && 0 <= k < slots.len() && serves(
            search(slots, files, c).1[k],
            c,
        ),
{
    lemma_first_serving(slots, c, 0);
    if first_serving(slots, c, 0) is None {
        lemma_search_from_finds(slots, files, c, 0, good);
    }
}

/// Without a font that has the character, in memory or on file, the search
/// ends with nothing.
pub proof fn lemma_search_without_font_is_absent(
    slots: Seq<Slot>,
    files: Seq<Option<Seq<u8>>>,
    c: char,
    step: FallbackStep,
)
    requires
        slots.len() <= usize::MAX,
        step is Load || step is Absent,
        forall|i: int| 0 <= i < slots.len() && i < files.len() ==> !file_serves(#[trigger] files[i], c),
    ensures
        search_from(slots, files, c, step).0 is None,
    decreases
        slots.len() - match step {
            FallbackStep::Load(i) => i as int,
            _ => slots.len() as int,
        },
{
    if let FallbackStep::Load(i) = step {
        let data = if i < files.len() {
            files[i as int]
        } else {
            None
        };
        let next = step_after(slots, i as int, data, c);
        let after = slots_after(slots, i as int, data, c);
        let progress = match next {
            FallbackStep::Load(j) => i < j < slots.len(),
            _ => true,
        };
        if i < slots.len() && slots.len() == after.len() && progress {
            lemma_search_without_font_is_absent(after, files, c, next);
        }
    }
}

/// Whether `after` holds no font in memory that `before` did not hold,
/// but for the one in slot `found`, and has forgotten no failure.
pub open spec fn retains_only(before: Seq<Slot>, after: Seq<Slot>, found: Option<int>) -> bool {
    &&& after.len() == before.len()
    &&& forall|i: int|
        0 <= i < before.len() && #[trigger] after[i] is Resident ==> before[i] is Resident || found
            == Some(i)
    &&& forall|i: int| 0 <= i < before.len() && #[trigger] before[i] is Failed ==> after[i] is Failed
    &&& forall|i: int|
        0 <= i < before.len() && #[trigger] before[i] is Resident ==> after[i] == before[i]
}

/// A search keeps in memory only the font that it found: fonts that were
/// read and did not have the character are dropped again, fonts that were
/// in memory stay, and what failed once stays failed.
pub proof fn lemma_search_retains_only_the_found_font(
    slots: Seq<Slot>,
    files: Seq<Option<Seq<u8>>>,
    c: char,
    step: FallbackStep,
)
    requires
        slots.len() <= usize::MAX,
        step matches FallbackStep::Found(i) ==> i < slots.len(),
    ensures
        retains_only(
            slots,
            search_from(slots, files, c, step).1,
            search_from(slots, files, c, step).0,
        ),
    decreases
        slots.len() - match step {
            FallbackStep::Load(i) => i as int,
            _ => slots.len() as int,
        },
{
    if let FallbackStep::Load(i) = step {
        let data = if i < files.len() {
            files[i as int]
        } else {
            None
        };
        let next = step_after(slots, i as int, data, c);
        let after = slots_after(slots, i as int, data, c);
        let progress = match next {
            FallbackStep::Load(j) => i < j < slots.len(),
            _ => true,
        };
        if i < slots.len() && slots.len() == after.len() && progress {
            lemma_search_retains_only_the_found_font(after, files, c, next);
            let end = search_from(after, files, c, next);
            if next is Load {
                lemma_next_open(after, i + 1);
            }
            assert(retains_only(slots, end.1, end.0)) by {
                assert forall|k: int|
                    0 <= k < slots.len() && #[trigger] end.1[k] is Resident implies slots[k] is Resident
                    || end.0 == Some(k) by {
                    if !(slots[k] is Resident) && end.0 != Some(k) {
                        assert(after[k] is Resident);
                        assert(k == i);
                        assert(next == FallbackStep::Found(i));
                    }
                }
                assert forall|k: int|
                    0 <= k < slots.len() && #[trigger] slots[k] is Failed implies end.1[k] is Failed by {
                    assert(after[k] is Failed);
                }
                assert forall|k: int|
                    0 <= k < slots.len() && #[trigger] slots[k] is Resident implies end.1[k]
                    == slots[k] by {
                    assert(after[k] == slots[k]);
                }
            }
        }
    }
}

/// A whole search keeps in memory only the font that it found.
pub proof fn lemma_cache_retains_only_useful_fonts(
    slots: Seq<Slot>,
    files: Seq<Option<Seq<u8>>>,
    c: char,
)
    requires
        slots.len() <= usize::MAX,
    ensures
        retains_only(slots, search(slots, files, c).1, search(slots, files, c).0),
{
    lemma_first_serving(slots, c, 0);
    lemma_search_retains_only_the_found_font(slots, files, c, first_step(slots, c));
}

} // verus!
