//! The covers that are stored with a book: a head, a table with an entry for
//! each cover, and the bits of the covers one behind the other. The fields of
//! the head and of an entry, and the codes of the kinds of cover, are a format of
//! this library.

use crate::bytes;
use vstd::prelude::*;

verus! {

/// Bytes of the head, and of each entry of the table.
pub const COVERS_HDR_SIZE: usize = 12;

pub const COVER_VARIANT_SIZE: usize = 16;

/// Entries that are looked at.
pub const MAX_VARIANTS: usize = 4;

/// Bytes of the head and of these entries.
pub const TABLE_MAX: usize = 76;

/// No raw cover is stored beside the bits.
pub const RAW_FMT_NONE: u8 = 0;

#[derive(Clone, Copy, Debug, PartialEq, Eq, Structural)]
pub enum CoverKind {
    Card,
    Mini,
}

/// An entry of the table. The bits of its cover stand at `data_offset`, counted
/// from the head.
#[derive(Clone, Copy, Debug, PartialEq, Eq, Structural)]
pub struct CoverVariant {
    pub kind: CoverKind,
    pub width: u16,
    pub height: u16,
    pub stride: u16,
    pub data_offset: u32,
    pub data_size: u32,
}

/// An image of one bit for each pixel, `stride` bytes to a row.
pub struct DecodedImage {
    pub width: u16,
    pub height: u16,
    pub stride: usize,
    pub data: Vec<u8>,
}

/// A cover to be stored.
pub struct CoverVariantBlob<'a> {
    pub kind: CoverKind,
    pub image: &'a DecodedImage,
}

/// What a bundle has of covers: the bytes of their section, if there is one,
/// and whether they are complete.
pub struct CoverStore {
    pub ready: bool,
    pub section: Option<Vec<u8>>,
}

/// A cover.
pub struct Cover {
    pub kind: CoverKind,
    pub width: u16,
    pub height: u16,
    pub stride: u16,
    pub bits: Seq<u8>,
}

impl<'a> CoverVariantBlob<'a> {
    pub open spec fn model(self) -> Cover {
        Cover {
            kind: self.kind,
            width: self.image.width,
            height: self.image.height,
            stride: self.image.stride as u16,
            bits: self.image.data@,
        }
    }
}

pub open spec fn models(vs: Seq<CoverVariantBlob>) -> Seq<Cover> {
    Seq::new(vs.len(), |i: int| vs[i].model())
}

// ── the format ────────────────────────────────────────────────────

pub open spec fn kind_code(k: CoverKind) -> u8 {
    match k {
        CoverKind::Card => 0,
        CoverKind::Mini => 1,
    }
}

pub open spec fn kind_of(code: u8) -> Option<CoverKind> {
    if code == 0 {
        Some(CoverKind::Card)
    } else if code == 1 {
        Some(CoverKind::Mini)
    } else {
        None
    }
}

/// Where the bits of cover `i` start: behind the table and the covers before
/// it. For the number of covers, the size of all.
pub open spec fn bits_at(cs: Seq<Cover>, i: int) -> int
    decreases i,
{
    if i <= 0 {
        COVERS_HDR_SIZE + COVER_VARIANT_SIZE * cs.len()
    } else {
        bits_at(cs, i - 1) + cs[i - 1].bits.len()
    }
}

pub open spec fn total_size(cs: Seq<Cover>) -> int {
    bits_at(cs, cs.len() as int)
}

/// The entry of cover `i`.
pub open spec fn entry_of(cs: Seq<Cover>, i: int) -> CoverVariant {
    CoverVariant {
        kind: cs[i].kind,
        width: cs[i].width,
        height: cs[i].height,
        stride: cs[i].stride,
        data_offset: bits_at(cs, i) as u32,
        data_size: cs[i].bits.len() as u32,
    }
}

#[verifier::opaque]
pub open spec fn head_bytes(n: int) -> Seq<u8> {
    seq![n as u8, RAW_FMT_NONE, 0, 0] + bytes::le32(0) + bytes::le32(0)
}

#[verifier::opaque]
pub open spec fn entry_bytes(v: CoverVariant) -> Seq<u8> {
    seq![kind_code(v.kind), 0] + bytes::le16(v.width) + bytes::le16(v.height) + bytes::le16(
        v.stride,
    ) + bytes::le32(v.data_offset) + bytes::le32(v.data_size)
}

/// The first `i` entries of the table.
pub open spec fn table_bytes(cs: Seq<Cover>, i: int) -> Seq<u8>
    decreases i,
{
    if i <= 0 {
        Seq::empty()
    } else {
        table_bytes(cs, i - 1) + entry_bytes(entry_of(cs, i - 1))
    }
}

/// The bits of the first `i` covers.
pub open spec fn all_bits(cs: Seq<Cover>, i: int) -> Seq<u8>
    decreases i,
{
    if i <= 0 {
        Seq::empty()
    } else {
        all_bits(cs, i - 1) + cs[i - 1].bits
    }
}

/// The covers as they are stored.
#[verifier::opaque]
pub open spec fn encoded(cs: Seq<Cover>) -> Seq<u8> {
    let n = cs.len() as int;
    head_bytes(n) + table_bytes(cs, n) + all_bits(cs, n)
}

/// The entry at byte `at`; none of an unknown kind.
#[verifier::opaque]
pub open spec fn entry_at(b: Seq<u8>, at: int) -> Option<CoverVariant> {
    match kind_of(b[at]) {
        None => None,
        Some(kind) => Some(
            CoverVariant {
                kind,
                width: bytes::u16_at(b, at + 2),
                height: bytes::u16_at(b, at + 4),
                stride: bytes::u16_at(b, at + 6),
                data_offset: bytes::u32_at(b, at + 8),
                data_size: bytes::u32_at(b, at + 12),
            },
        ),
    }
}

/// Entry `i` is looked at: it ends within the bytes of the table that are read.
pub open spec fn looked_at(b: Seq<u8>, i: int) -> bool {
    let end = COVERS_HDR_SIZE + (i + 1) * COVER_VARIANT_SIZE;
    end <= b.len() && end <= TABLE_MAX
}

/// What the first `i` entries of the table tell.
pub open spec fn listed(b: Seq<u8>, i: int) -> Seq<CoverVariant>
    decreases i,
{
    if i <= 0 {
        Seq::empty()
    } else {
        let before = listed(b, i - 1);
        match entry_at(b, COVERS_HDR_SIZE + (i - 1) * COVER_VARIANT_SIZE) {
            Some(v) => if looked_at(b, i - 1) {
                before.push(v)
            } else {
                before
            },
            None => before,
        }
    }
}

/// The table of the covers: empty unless they are complete, and the section
/// has room for an entry.
pub open spec fn table_of(s: CoverStore) -> Seq<CoverVariant> {
    match s.section {
        Some(sec) => if s.ready && sec@.len() >= COVERS_HDR_SIZE + COVER_VARIANT_SIZE {
            listed(sec@, sec@[0] as int)
        } else {
            Seq::empty()
        },
        None => Seq::empty(),
    }
}

/// The first entry of a kind from `i` on.
pub open spec fn first_of(vs: Seq<CoverVariant>, kind: CoverKind, i: int) -> Option<CoverVariant>
    decreases vs.len() - i,
{
    if i < 0 || i >= vs.len() {
        None
    } else if vs[i].kind == kind {
        Some(vs[i])
    } else {
        first_of(vs, kind, i + 1)
    }
}

/// The entry to show: the first of the preferred kind, or else the first.
pub open spec fn picked(vs: Seq<CoverVariant>, prefer: CoverKind) -> Option<CoverVariant> {
    if first_of(vs, prefer, 0) is Some {
        first_of(vs, prefer, 0)
    } else if vs.len() > 0 {
        Some(vs[0])
    } else {
        None
    }
}

/// The entry to show.
pub fn pick(vs: &[CoverVariant], prefer: CoverKind) -> (r: Option<CoverVariant>)
    ensures
        r == picked(vs@, prefer),
{
    let mut i: usize = 0;
    while i < vs.len()
        invariant
            i <= vs@.len(),
            first_of(vs@, prefer, i as int) == first_of(vs@, prefer, 0),
        decreases vs@.len() - i,
    {
        if vs[i].kind == prefer {
            return Some(vs[i]);
        }
        i = i + 1;
    }
    if vs.len() > 0 {
        Some(vs[0])
    } else {
        None
    }
}

/// The cover to show: none where its size is zero or its bits are not all in
/// the section.
pub open spec fn stored(s: CoverStore, prefer: CoverKind) -> Option<Cover> {
    match picked(table_of(s), prefer) {
        None => None,
        Some(v) => {
            let sec = (s.section->0)@;
            let at = v.data_offset as int;
            if v.width == 0 || v.height == 0 || at + v.data_size > sec.len() {
                None
            } else {
                Some(
                    Cover {
                        kind: v.kind,
                        width: v.width,
                        height: v.height,
                        stride: v.stride,
                        bits: sec.subrange(at, at + v.data_size),
                    },
                )
            }
        },
    }
}

// ── writing ───────────────────────────────────────────────────────

/// Why covers cannot be written.
#[derive(Clone, Copy, Debug, PartialEq, Eq, Structural)]
pub enum CoverError {
    NoVariants,
    TooManyVariants,
}

/// What becomes of the section of the covers.
#[derive(Clone, Copy, Debug, PartialEq, Eq, Structural)]
pub enum SectionUse {
    /// it is large enough
    Reuse,
    /// it is given up for a new one
    Replace,
    /// there is none yet
    Allocate,
}

proof fn lemma_sizes(cs: Seq<Cover>, i: int)
    requires
        0 <= i <= cs.len(),
    ensures
        table_bytes(cs, i).len() == COVER_VARIANT_SIZE * i,
        all_bits(cs, i).len() == bits_at(cs, i) - bits_at(cs, 0),
        bits_at(cs, 0) <= bits_at(cs, i) <= total_size(cs),
    decreases i,
{
    if i > 0 {
        lemma_sizes(cs, i - 1);
        lemma_entry_len(entry_of(cs, i - 1));
    }
    lemma_bits_ascend(cs, i, cs.len() as int);
    lemma_bits_ascend(cs, 0, i);
}

proof fn lemma_entry_len(v: CoverVariant)
    ensures
        entry_bytes(v).len() == COVER_VARIANT_SIZE,
{
    reveal(entry_bytes);
}

proof fn lemma_bits_ascend(cs: Seq<Cover>, i: int, j: int)
    requires
        0 <= i <= j <= cs.len(),
    ensures
        bits_at(cs, i) <= bits_at(cs, j),
    decreases j,
{
    if i < j {
        lemma_bits_ascend(cs, i, j - 1);
    }
}

fn push_entry(out: &mut Vec<u8>, v: CoverVariant)
    ensures
        final(out)@ == old(out)@ + entry_bytes(v),
{
    let code: u8 = match v.kind {
        CoverKind::Card => 0,
        CoverKind::Mini => 1,
    };
    out.push(code);
    out.push(0);
    bytes::push_u16(out, v.width);
    bytes::push_u16(out, v.height);
    bytes::push_u16(out, v.stride);
    bytes::push_u32(out, v.data_offset);
    bytes::push_u32(out, v.data_size);
    proof {
        reveal(entry_bytes);
        assert(out@ =~= old(out)@ + entry_bytes(v));
    }
}

proof fn lemma_encoded_len(cs: Seq<Cover>)
    ensures
        encoded(cs).len() == total_size(cs),
{
    reveal(encoded);
    reveal(head_bytes);
    lemma_sizes(cs, cs.len() as int);
}

/// The bytes of covers.
fn encode_covers(variants: &[CoverVariantBlob]) -> (out: Vec<u8>)
    requires
        variants@.len() <= 255,
        total_size(models(variants@)) <= u32::MAX,
    ensures
        out@ == encoded(models(variants@)),
        out@.len() == total_size(models(variants@)),
{
    let n: usize = variants.len();
    let ghost cs = models(variants@);
    let mut out: Vec<u8> = Vec::new();
    out.push(n as u8);
    out.push(RAW_FMT_NONE);
    out.push(0);
    out.push(0);
    bytes::push_u32(&mut out, 0);
    bytes::push_u32(&mut out, 0);
    let mut at: u32 = (COVERS_HDR_SIZE + COVER_VARIANT_SIZE * n) as u32;
    let mut i: usize = 0;
    proof {
        reveal(head_bytes);
        assert(out@ =~= head_bytes(n as int) + table_bytes(cs, 0));
    }
    while i < n
        invariant
            i <= n <= 255,
            n == variants@.len(),
            cs == models(variants@),
            total_size(cs) <= u32::MAX,
            at == bits_at(cs, i as int),
            out@ == head_bytes(n as int) + table_bytes(cs, i as int),
        decreases n - i,
    {
        let image: &DecodedImage = variants[i].image;
        proof {
            lemma_bits_ascend(cs, i + 1, n as int);
            assert(cs[i as int] == variants@[i as int].model());
        }
        let size: u32 = image.data.len() as u32;
        push_entry(
            &mut out,
            CoverVariant {
                kind: variants[i].kind,
                width: image.width,
                height: image.height,
                stride: image.stride as u16,
                data_offset: at,
                data_size: size,
            },
        );
        proof {
            assert(out@ =~= head_bytes(n as int) + table_bytes(cs, i + 1));
        }
        at = at + size;
        i = i + 1;
    }
    let mut k: usize = 0;
    proof {
        assert(out@ =~= head_bytes(n as int) + table_bytes(cs, n as int) + all_bits(cs, 0));
    }
    while k < n
        invariant
            k <= n,
            n == variants@.len(),
            cs == models(variants@),
            out@ == head_bytes(n as int) + table_bytes(cs, n as int) + all_bits(cs, k as int),
        decreases n - k,
    {
        bytes::push_all(&mut out, variants[k].image.data.as_slice());
        proof {
            assert(cs[k as int] == variants@[k as int].model());
            assert(out@ =~= head_bytes(n as int) + table_bytes(cs, n as int) + all_bits(cs, k + 1));
        }
        k = k + 1;
    }
    proof {
        lemma_encoded_len(cs);
        reveal(encoded);
    }
    out
}

/// The section after covers were written: over the start of the old one where
/// it is large enough, else a new one.
pub open spec fn written(old_section: Option<Vec<u8>>, new: Seq<u8>) -> Seq<u8> {
    match old_section {
        Some(b) => if b@.len() >= new.len() {
            new + b@.skip(new.len() as int)
        } else {
            new
        },
        None => new,
    }
}

pub open spec fn use_of(old_section: Option<Vec<u8>>, total: int) -> SectionUse {
    match old_section {
        Some(b) => if b@.len() >= total {
            SectionUse::Reuse
        } else {
            SectionUse::Replace
        },
        None => SectionUse::Allocate,
    }
}

/// Store covers, and say what became of their section.
pub fn save_cover_variants(store: &mut CoverStore, variants: &[CoverVariantBlob]) -> (r: Result<
    SectionUse,
    CoverError,
>)
    requires
        total_size(models(variants@)) <= u32::MAX,
    ensures
        match r {
            Err(CoverError::NoVariants) => variants@.len() == 0 && *final(store) == *old(store),
            Err(CoverError::TooManyVariants) => variants@.len() > 255 && *final(store) == *old(
                store,
            ),
            Ok(u) => {
                let cs = models(variants@);
                &&& 0 < variants@.len() <= 255
                &&& u == use_of(old(store).section, total_size(cs))
                &&& final(store).ready
                &&& final(store).section is Some
                &&& (final(store).section->0)@ == written(old(store).section, encoded(cs))
            },
        },
{
    if variants.len() == 0 {
        return Err(CoverError::NoVariants);
    }
    if variants.len() > 255 {
        return Err(CoverError::TooManyVariants);
    }
    let mut new: Vec<u8> = encode_covers(variants);
    let total: usize = new.len();
    let used: SectionUse = match &store.section {
        Some(b) => if b.len() >= total {
            let mut k: usize = total;
            let len: usize = b.len();
            proof {
                assert(b@.subrange(total as int, total as int) =~= Seq::<u8>::empty());
                assert(new@ + Seq::<u8>::empty() =~= new@);
            }
            let ghost fresh = new@;
            while k < len
                invariant
                    total <= k <= len == b@.len(),
                    new@ =~= fresh + b@.subrange(total as int, k as int),
                decreases len - k,
            {
                new.push(b[k]);
                k = k + 1;
            }
            proof {
                assert(b@.subrange(total as int, len as int) =~= b@.skip(total as int));
            }
            SectionUse::Reuse
        } else {
            SectionUse::Replace
        },
        None => SectionUse::Allocate,
    };
    store.section = Some(new);
    store.ready = true;
    Ok(used)
}

// ── reading ───────────────────────────────────────────────────────

fn read_entry(b: &[u8], at: usize) -> (r: Option<CoverVariant>)
    requires
        at + COVER_VARIANT_SIZE <= b@.len(),
    ensures
        r == entry_at(b@, at as int),
{
    proof {
        reveal(entry_at);
    }
    let code: u8 = b[at];
    let kind: CoverKind = if code == 0 {
        CoverKind::Card
    } else if code == 1 {
        CoverKind::Mini
    } else {
        return None;
    };
    Some(
        CoverVariant {
            kind,
            width: bytes::read_u16(b, at + 2),
            height: bytes::read_u16(b, at + 4),
            stride: bytes::read_u16(b, at + 6),
            data_offset: bytes::read_u32(b, at + 8),
            data_size: bytes::read_u32(b, at + 12),
        },
    )
}

impl CoverStore {
    /// A bundle without covers.
    pub fn new() -> (s: CoverStore)
        ensures
            !s.ready,
            s.section is None,
    {
        CoverStore { ready: false, section: None }
    }

    /// The entries of the table.
    pub fn entries(&self) -> (vs: Vec<CoverVariant>)
        ensures
            vs@ == table_of(*self),
    {
        let mut vs: Vec<CoverVariant> = Vec::new();
        if !self.ready {
            return vs;
        }
        if let Some(sec) = &self.section {
            let len: usize = sec.len();
            if len < COVERS_HDR_SIZE + COVER_VARIANT_SIZE {
                return vs;
            }
            let b: &[u8] = sec.as_slice();
            let count: usize = b[0] as usize;
            let mut i: usize = 0;
            while i < count
                invariant
                    i <= count <= 255,
                    len == b@.len(),
                    vs@ == listed(b@, i as int),
                decreases count - i,
            {
                let start: usize = COVERS_HDR_SIZE + i * COVER_VARIANT_SIZE;
                let end: usize = start + COVER_VARIANT_SIZE;
                if end <= len && end <= TABLE_MAX {
                    if let Some(v) = read_entry(b, start) {
                        vs.push(v);
                    }
                }
                i = i + 1;
            }
        }
        vs
    }
}

/// Whether a cover of a kind is stored.
pub fn has_cover_variant(store: &CoverStore, kind: CoverKind) -> (b: bool)
    ensures
        b == exists|i: int|
            0 <= i < table_of(*store).len() && (#[trigger] table_of(*store)[i]).kind == kind,
{
    let vs: Vec<CoverVariant> = store.entries();
    let mut i: usize = 0;
    while i < vs.len()
        invariant
            i <= vs@.len(),
            vs@ == table_of(*store),
            forall|k: int| 0 <= k < i ==> (#[trigger] vs@[k]).kind != kind,
        decreases vs@.len() - i,
    {
        if vs[i].kind == kind {
            proof {
                assert(table_of(*store)[i as int].kind == kind);
            }
            return true;
        }
        i = i + 1;
    }
    false
}

/// The image is the cover, or both are none.
pub open spec fn image_is(r: Option<DecodedImage>, want: Option<Cover>) -> bool {
    match (r, want) {
        (Some(i), Some(c)) => i.width == c.width && i.height == c.height && i.stride == c.stride
            && i.data@ == c.bits,
        (None, None) => true,
        _ => false,
    }
}

/// The cover to show, if there is memory for it.
pub open spec fn cover_with(s: CoverStore, prefer: CoverKind, room: bool) -> Option<Cover> {
    if room {
        stored(s, prefer)
    } else {
        None
    }
}

/// The entry to show, once its bits are known to be in the section.
fn chosen_entry(store: &CoverStore, prefer: CoverKind) -> (r: Option<CoverVariant>)
    ensures
        match r {
            Some(v) => picked(table_of(*store), prefer) == Some(v) && stored(*store, prefer) is Some
                && store.section is Some,
            None => stored(*store, prefer) is None,
        },
{
    let vs: Vec<CoverVariant> = store.entries();
    match pick(vs.as_slice(), prefer) {
        None => None,
        Some(v) => {
            if v.width == 0 || v.height == 0 {
                return None;
            }
            match &store.section {
                None => None,
                Some(sec) => {
                    let end: u64 = v.data_offset as u64 + v.data_size as u64;
                    if end > sec.len() as u64 {
                        None
                    } else {
                        Some(v)
                    }
                },
            }
        },
    }
}

/// Load the cover to show; `room` says whether there is memory for it.
pub fn load_cover_granted(store: &CoverStore, prefer: CoverKind, room: bool) -> (r: Option<
    DecodedImage,
>)
    ensures
        image_is(r, cover_with(*store, prefer, room)),
{
    if !room {
        return None;
    }
    match chosen_entry(store, prefer) {
        None => None,
        Some(v) => match &store.section {
            None => None,
            Some(sec) => {
                let len: usize = sec.len();
                proof {
                    assert(v.data_offset + v.data_size <= len);
                }
                let from: usize = v.data_offset as usize;
                let to: usize = from + v.data_size as usize;
                Some(
                    DecodedImage {
                        width: v.width,
                        height: v.height,
                        stride: v.stride as usize,
                        data: bytes::copied(
                            vstd::slice::slice_subrange(sec.as_slice(), from, to),
                        ),
                    },
                )
            },
        },
    }
}

/// Load the cover to show: the first of the kind `prefer`, or else the first.
/// There may be no memory for it.
pub fn load_cover_variant(store: &CoverStore, prefer: CoverKind) -> (r: Option<DecodedImage>)
    ensures
        exists|room: bool| image_is(r, #[trigger] cover_with(*store, prefer, room)),
{
    let mut room: bool = true;
    if let Some(v) = chosen_entry(store, prefer) {
        let mut data: Vec<u8> = Vec::new();
        room = data.try_reserve(v.data_size as usize).is_ok();
    }
    let r: Option<DecodedImage> = load_cover_granted(store, prefer, room);
    proof {
        assert(image_is(r, cover_with(*store, prefer, room)));
    }
    r
}

/// What a row of the library shows of a book.
pub struct LibraryEntry {
    pub cover: Option<DecodedImage>,
    /// none until the book was opened and laid out
    pub total_pages: Option<u32>,
}

/// The row of a book whose bundle has these covers and so many pages; an empty
/// one where it has no bundle.
pub fn load_library_entry(bundle: Option<(&CoverStore, Option<u32>)>) -> (e: LibraryEntry)
    ensures
        match bundle {
            Some((store, pages)) => e.total_pages == pages && exists|room: bool|
                image_is(e.cover, #[trigger] cover_with(*store, CoverKind::Mini, room)),
            None => e.cover is None && e.total_pages is None,
        },
{
    match bundle {
        Some((store, total_pages)) => LibraryEntry {
            cover: load_cover_variant(store, CoverKind::Mini),
            total_pages,
        },
        None => LibraryEntry { cover: None, total_pages: None },
    }
}

// ── laws ──────────────────────────────────────────────────────────

/// The first cover of a kind from `i` on.
pub open spec fn first_cover(cs: Seq<Cover>, kind: CoverKind, i: int) -> Option<Cover>
    decreases cs.len() - i,
{
    if i < 0 || i >= cs.len() {
        None
    } else if cs[i].kind == kind {
        Some(cs[i])
    } else {
        first_cover(cs, kind, i + 1)
    }
}

/// The cover to show of these: the first of the kind, or else the first.
pub open spec fn choice(cs: Seq<Cover>, prefer: CoverKind) -> Cover {
    match first_cover(cs, prefer, 0) {
        Some(c) => c,
        None => cs[0],
    }
}

/// The covers that are looked at.
pub open spec fn seen(cs: Seq<Cover>) -> Seq<Cover> {
    if cs.len() > MAX_VARIANTS {
        cs.take(MAX_VARIANTS as int)
    } else {
        cs
    }
}

proof fn lemma_table_entry(cs: Seq<Cover>, n: int, j: int)
    requires
        0 <= j < n <= cs.len(),
    ensures
        table_bytes(cs, n).len() == COVER_VARIANT_SIZE * n,
        table_bytes(cs, n).subrange(16 * j, 16 * j + 16) == entry_bytes(entry_of(cs, j)),
    decreases n,
{
    lemma_sizes(cs, n);
    lemma_sizes(cs, n - 1);
    if j < n - 1 {
        lemma_table_entry(cs, n - 1, j);
        assert(table_bytes(cs, n).subrange(16 * j, 16 * j + 16) =~= table_bytes(
            cs,
            n - 1,
        ).subrange(16 * j, 16 * j + 16));
    } else {
        assert(table_bytes(cs, n).subrange(16 * j, 16 * j + 16) =~= entry_bytes(entry_of(cs, j)));
    }
}

proof fn lemma_bits_of(cs: Seq<Cover>, n: int, j: int)
    requires
        0 <= j < n <= cs.len(),
    ensures
        ({
            let at = bits_at(cs, j) - bits_at(cs, 0);
            &&& at + cs[j].bits.len() <= all_bits(cs, n).len()
            &&& all_bits(cs, n).subrange(at, at + cs[j].bits.len()) == cs[j].bits
        }),
    decreases n,
{
    let at = bits_at(cs, j) - bits_at(cs, 0);
    lemma_sizes(cs, n);
    lemma_sizes(cs, n - 1);
    lemma_sizes(cs, j);
    if j < n - 1 {
        lemma_bits_of(cs, n - 1, j);
        assert(all_bits(cs, n).subrange(at, at + cs[j].bits.len()) =~= all_bits(
            cs,
            n - 1,
        ).subrange(at, at + cs[j].bits.len()));
    } else {
        assert(all_bits(cs, n).subrange(at, at + cs[j].bits.len()) =~= cs[j].bits);
    }
}

/// An entry is read back from its bytes.
proof fn lemma_entry_bytes_read_back(b: Seq<u8>, at: int, v: CoverVariant)
    requires
        forall|k: int| 0 <= k < 16 ==> b[at + k] == #[trigger] entry_bytes(v)[k],
    ensures
        entry_at(b, at) == Some(v),
{
    reveal(entry_bytes);
    reveal(entry_at);
    let e = entry_bytes(v);
    assert(b[at + 0] == e[0]);
    assert(b[at + 2] == e[2] && b[at + 3] == e[3]);
    assert(b[at + 4] == e[4] && b[at + 5] == e[5]);
    assert(b[at + 6] == e[6] && b[at + 7] == e[7]);
    assert(b[at + 8] == e[8] && b[at + 9] == e[9] && b[at + 10] == e[10] && b[at + 11] == e[11]);
    assert(b[at + 12] == e[12] && b[at + 13] == e[13] && b[at + 14] == e[14] && b[at + 15]
        == e[15]);
    bytes::law_numbers_read_back(b, at + 2, v.width, 0);
    bytes::law_numbers_read_back(b, at + 4, v.height, 0);
    bytes::law_numbers_read_back(b, at + 6, v.stride, 0);
    bytes::law_numbers_read_back(b, at + 8, 0, v.data_offset);
    bytes::law_numbers_read_back(b, at + 12, 0, v.data_size);
}

/// What stands in a section that starts with stored covers: the entries, their
/// number, and the bits.
proof fn lemma_entry_reads_back(b: Seq<u8>, cs: Seq<Cover>, j: int)
    requires
        0 <= j < cs.len() <= 255,
        starts_with(b, cs),
    ensures
        entry_at(b, COVERS_HDR_SIZE + j * COVER_VARIANT_SIZE) == Some(entry_of(cs, j)),
        b[0] == cs.len(),
{
    let n = cs.len() as int;
    let total = total_size(cs);
    let t = table_bytes(cs, n);
    let e = entry_bytes(entry_of(cs, j));
    let at = 12 + 16 * j;
    lemma_table_entry(cs, n, j);
    lemma_sizes(cs, n);
    lemma_encoded_len(cs);
    lemma_entry_len(entry_of(cs, j));
    assert(encoded(cs)[0] == n as u8 && forall|k: int|
        0 <= k < 16 ==> #[trigger] encoded(cs)[at + k] == t[16 * j + k]) by {
        reveal(encoded);
        reveal(head_bytes);
    }
    assert forall|k: int| 0 <= k < 16 implies b[at + k] == #[trigger] e[k] by {
        assert(b.take(total)[at + k] == b[at + k]);
        assert(encoded(cs)[at + k] == t[16 * j + k]);
        assert(t.subrange(16 * j, 16 * j + 16)[k] == t[16 * j + k]);
    }
    lemma_entry_bytes_read_back(b, at, entry_of(cs, j));
    assert(b.take(total)[0] == b[0]);
}

proof fn lemma_bits_read_back(b: Seq<u8>, cs: Seq<Cover>, j: int)
    requires
        0 <= j < cs.len() <= 255,
        starts_with(b, cs),
    ensures
        bits_there(b, cs, j),
{
    let n = cs.len() as int;
    let total = total_size(cs);
    let from = bits_at(cs, j);
    let off = from - bits_at(cs, 0);
    let bits = all_bits(cs, n);
    let len = cs[j].bits.len() as int;
    lemma_bits_of(cs, n, j);
    lemma_sizes(cs, n);
    lemma_sizes(cs, j);
    lemma_bits_ascend(cs, j + 1, n);
    lemma_encoded_len(cs);
    assert(forall|k: int| 0 <= k < len ==> #[trigger] encoded(cs)[from + k] == bits[off + k]) by {
        reveal(encoded);
        reveal(head_bytes);
    }
    assert forall|k: int| 0 <= k < len implies b.subrange(from, from + len)[k] == cs[j].bits[k] by {
        assert(b.take(total)[from + k] == b[from + k]);
        assert(encoded(cs)[from + k] == bits[off + k]);
        assert(bits.subrange(off, off + len)[k] == bits[off + k]);
    }
    assert(b.subrange(from, from + len) =~= cs[j].bits);
}

/// The section starts with the covers.
spec fn starts_with(b: Seq<u8>, cs: Seq<Cover>) -> bool {
    &&& total_size(cs) <= u32::MAX
    &&& b.len() >= total_size(cs)
    &&& b.take(total_size(cs)) == encoded(cs)
}

proof fn lemma_listed(b: Seq<u8>, cs: Seq<Cover>, i: int)
    requires
        0 <= i <= cs.len() <= 255,
        starts_with(b, cs),
    ensures
        listed(b, i).len() == (if i < MAX_VARIANTS {
            i
        } else {
            MAX_VARIANTS as int
        }),
        forall|k: int| 0 <= k < listed(b, i).len() ==> #[trigger] listed(b, i)[k] == entry_of(cs, k),
    decreases i,
{
    lemma_sizes(cs, 0);
    if i > 0 {
        lemma_listed(b, cs, i - 1);
        lemma_entry_reads_back(b, cs, i - 1);
        assert(looked_at(b, i - 1) == (i <= MAX_VARIANTS));
    }
}

/// The entry that is picked is that of the cover that is chosen.
proof fn lemma_first(
    vs: Seq<CoverVariant>,
    cs: Seq<Cover>,
    all: Seq<Cover>,
    kind: CoverKind,
    i: int,
) -> (j: int)
    requires
        0 <= i <= vs.len(),
        vs.len() == cs.len() <= all.len(),
        forall|k: int| 0 <= k < vs.len() ==> #[trigger] vs[k] == entry_of(all, k),
        forall|k: int| 0 <= k < cs.len() ==> #[trigger] cs[k] == all[k],
    ensures
        first_of(vs, kind, i) is Some == (first_cover(cs, kind, i) is Some),
        first_of(vs, kind, i) is Some ==> 0 <= j < cs.len() && first_of(vs, kind, i) == Some(
            entry_of(all, j),
        ) && first_cover(cs, kind, i) == Some(all[j]),
    decreases vs.len() - i,
{
    if i < vs.len() {
        assert(vs[i] == entry_of(all, i) && cs[i] == all[i]);
        if vs[i].kind == kind {
            i
        } else {
            lemma_first(vs, cs, all, kind, i + 1)
        }
    } else {
        0
    }
}

proof fn lemma_written(before: Option<Vec<u8>>, cs: Seq<Cover>)
    requires
        total_size(cs) <= u32::MAX,
    ensures
        starts_with(written(before, encoded(cs)), cs),
        total_size(cs) >= COVERS_HDR_SIZE + COVER_VARIANT_SIZE * cs.len(),
{
    lemma_sizes(cs, cs.len() as int);
    lemma_encoded_len(cs);
    assert(written(before, encoded(cs)).take(total_size(cs)) =~= encoded(cs));
}

/// The bits of cover `j` stand where its entry says.
spec fn bits_there(b: Seq<u8>, cs: Seq<Cover>, j: int) -> bool {
    let at = bits_at(cs, j);
    &&& 0 <= at <= at + cs[j].bits.len() <= b.len()
    &&& at + cs[j].bits.len() <= u32::MAX
    &&& b.subrange(at, at + cs[j].bits.len()) == cs[j].bits
}

proof fn lemma_choice(s: CoverStore, cs: Seq<Cover>, prefer: CoverKind)
    requires
        0 < cs.len() <= 255,
        forall|i: int| 0 <= i < cs.len() ==> (#[trigger] cs[i]).width > 0 && cs[i].height > 0,
        s.ready,
        s.section is Some,
        ({
            let b = (s.section->0)@;
            let n = cs.len() as int;
            &&& b.len() >= COVERS_HDR_SIZE + COVER_VARIANT_SIZE
            &&& b[0] == n
            &&& listed(b, n).len() == seen(cs).len()
            &&& forall|k: int|
                0 <= k < listed(b, n).len() ==> #[trigger] listed(b, n)[k] == entry_of(cs, k)
            &&& forall|j: int| 0 <= j < n ==> #[trigger] bits_there(b, cs, j)
        }),
    ensures
        stored(s, prefer) == Some(choice(seen(cs), prefer)),
{
    let b = (s.section->0)@;
    let vs = listed(b, cs.len() as int);
    let m = seen(cs);
    let at = lemma_first(vs, m, cs, prefer, 0);
    let j = if first_of(vs, prefer, 0) is Some {
        at
    } else {
        0
    };
    assert(vs[0] == entry_of(cs, 0));
    assert(picked(vs, prefer) == Some(entry_of(cs, j)));
    assert(bits_there(b, cs, j));
    assert(cs[j].width > 0);
    assert(choice(m, prefer) == cs[j]);
}

/// Stored covers do not overlap, nor reach into the table or over the end.
pub proof fn law_covers_do_not_overlap(cs: Seq<Cover>, i: int, j: int)
    requires
        0 <= i < j < cs.len(),
    ensures
        COVERS_HDR_SIZE + COVER_VARIANT_SIZE * cs.len() <= bits_at(cs, i),
        bits_at(cs, i) + cs[i].bits.len() <= bits_at(cs, j),
        bits_at(cs, j) + cs[j].bits.len() <= total_size(cs),
{
    lemma_bits_ascend(cs, 0, i);
    lemma_bits_ascend(cs, i + 1, j);
    lemma_bits_ascend(cs, j + 1, cs.len() as int);
}

/// Stored covers come back: of those that are looked at, the first of the kind
/// that is asked for, or else the first, whatever was stored before.
pub proof fn law_saved_covers_come_back(
    before: Option<Vec<u8>>,
    after: CoverStore,
    cs: Seq<Cover>,
    prefer: CoverKind,
)
    requires
        0 < cs.len() <= 255,
        total_size(cs) <= u32::MAX,
        forall|i: int| 0 <= i < cs.len() ==> (#[trigger] cs[i]).width > 0 && cs[i].height > 0,
        after.ready,
        after.section is Some,
        (after.section->0)@ == written(before, encoded(cs)),
    ensures
        stored(after, prefer) == Some(choice(seen(cs), prefer)),
{
    let b = (after.section->0)@;
    lemma_written(before, cs);
    lemma_entry_reads_back(b, cs, 0);
    lemma_listed(b, cs, cs.len() as int);
    assert forall|j: int| 0 <= j < cs.len() implies #[trigger] bits_there(b, cs, j) by {
        lemma_bits_read_back(b, cs, j);
    }
    lemma_choice(after, cs, prefer);
}

} // verus!
