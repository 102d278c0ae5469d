use vstd::prelude::*;

use crate::bytes::{ne_value, read_u16_ne, read_u32_ne, read_u64_ne};

verus! {

/// Bytes per entry of the compositor's DMA-BUF format table.
pub const FORMAT_TABLE_ENTRY_SIZE: usize = 16;

/// Largest number of entries accepted in a format table.
pub const MAX_FORMAT_COUNT: usize = 65536;

/// A DRM fourcc code together with a layout modifier.
#[derive(Debug, Clone, Copy, PartialEq, Eq, Structural)]
pub struct DmabufFormatModifier {
    pub fourcc: u32,
    pub modifier: u64,
}

/// Why DMA-BUF feedback from the compositor was rejected.
#[derive(Debug, Clone, Copy, PartialEq, Eq, Structural)]
pub enum DmabufError {
    /// The format table size is not a multiple of the entry size.
    TableSizeNotMultiple { size: usize },
    /// The format table has more entries than accepted.
    TooManyTableEntries { count: usize },
    /// The mapped format table ends in a partial entry.
    PartialTableEntry,
    /// The format table could not be mapped into memory (or unmapped).
    MappingFailed,
    /// A tranche index array has an odd number of bytes.
    OddTrancheIndexSize { len: usize },
    /// A tranche names an index past the end of the format table.
    TrancheIndexOutOfRange { index: usize, table_len: usize },
}

/// `base` with each of `items` appended unless already present.
pub open spec fn appended_unique(
    base: Seq<DmabufFormatModifier>,
    items: Seq<DmabufFormatModifier>,
) -> Seq<DmabufFormatModifier>
    decreases items.len(),
{
    if items.len() == 0 {
        base
    } else {
        let front = appended_unique(base, items.drop_last());
        if front.contains(items.last()) {
            front
        } else {
            front.push(items.last())
        }
    }
}

/// The format entries of a table laid out as the protocol sends it: per entry
/// a fourcc in the first four bytes and a modifier in the last eight, both in
/// the machine's byte order.
pub open spec fn table_entries(bytes: Seq<u8>) -> Seq<DmabufFormatModifier> {
    Seq::new(
        bytes.len() / 16,
        |i: int|
            DmabufFormatModifier {
                fourcc: ne_value(bytes, 16 * i, 4) as u32,
                modifier: ne_value(bytes, 16 * i + 8, 8) as u64,
            },
    )
}

/// The format-table indices of a tranche: one 16-bit value per byte pair.
pub open spec fn tranche_indices(raw: Seq<u8>) -> Seq<int> {
    Seq::new(raw.len() / 2, |i: int| ne_value(raw, 2 * i, 2))
}

/// The first index in `indices` that is not below `table_len`, if any.
pub open spec fn first_bad_index(indices: Seq<int>, table_len: int) -> Option<int> {
    if exists|p: int| 0 <= p < indices.len() && indices[p] >= table_len {
        Some(
            choose|p: int|
                0 <= p < indices.len() && indices[p] >= table_len && forall|q: int|
                    0 <= q < p ==> indices[q] < table_len,
        )
    } else {
        None
    }
}

pub open spec fn formats_at(
    table: Seq<DmabufFormatModifier>,
    indices: Seq<int>,
) -> Seq<DmabufFormatModifier> {
    indices.map_values(|i: int| table[i])
}

/// Splits a DMA-BUF format table into its entries.
pub fn parse_format_table(bytes: &[u8]) -> (parsed: Result<Vec<DmabufFormatModifier>, DmabufError>)
    ensures
        bytes@.len() % 16 != 0 ==> parsed == Err::<Vec<DmabufFormatModifier>, DmabufError>(
            DmabufError::PartialTableEntry,
        ),
        bytes@.len() % 16 == 0 ==> (parsed matches Ok(v) && v@ == table_entries(bytes@)),
{
    let len = bytes.len();
    if len % FORMAT_TABLE_ENTRY_SIZE != 0 {
        return Err(DmabufError::PartialTableEntry);
    }
    let count = len / FORMAT_TABLE_ENTRY_SIZE;
    let mut formats: Vec<DmabufFormatModifier> = Vec::with_capacity(count);
    for i in 0..count
        invariant
            len == bytes@.len(),
            count == len / 16,
            formats@ == table_entries(bytes@).take(i as int),
    {
        assert(16 * i + 16 <= len) by (nonlinear_arith)
            requires
                i < count,
                count == len / 16,
        ;
        let fourcc = read_u32_ne(bytes, 16 * i);
        let modifier = read_u64_ne(bytes, 16 * i + 8);
        formats.push(DmabufFormatModifier { fourcc, modifier });
        assert(formats@ =~= table_entries(bytes@).take(i + 1));
    }
    assert(table_entries(bytes@).take(count as int) =~= table_entries(bytes@));
    Ok(formats)
}

/// Appends `format` unless the list already holds it.
fn push_unique(formats: &mut Vec<DmabufFormatModifier>, format: DmabufFormatModifier)
    requires
        old(formats)@.no_duplicates(),
    ensures
        final(formats)@ == (if old(formats)@.contains(format) {
            old(formats)@
        } else {
            old(formats)@.push(format)
        }),
        final(formats)@.no_duplicates(),
{
    let n = formats.len();
    let mut i: usize = 0;
    while i < n
        invariant
            n == formats@.len(),
            formats@ == old(formats)@,
            old(formats)@.no_duplicates(),
            i <= n,
            forall|m: int| 0 <= m < i ==> formats@[m] != format,
        decreases n - i,
    {
        if formats[i] == format {
            assert(formats@[i as int] == format);
            return;
        }
        i += 1;
    }
    proof {
        lemma_push_unique_keeps_distinct(old(formats)@, format);
    }
    formats.push(format);
}

fn copy_formats(formats: &Vec<DmabufFormatModifier>) -> (copy: Vec<DmabufFormatModifier>)
    ensures
        copy@ == formats@,
{
    let mut copy: Vec<DmabufFormatModifier> = Vec::with_capacity(formats.len());
    for i in 0..formats.len()
        invariant
            copy@ == formats@.take(i as int),
    {
        copy.push(formats[i]);
        assert(copy@ =~= formats@.take(i + 1));
    }
    assert(formats@.take(formats@.len() as int) =~= formats@);
    copy
}

/// DMA-BUF format feedback gathered from the compositor: the format table,
/// the tranche being assembled, the formats of the last finished surface
/// feedback, and the formats announced by the legacy `modifier` events.
#[derive(Debug)]
pub struct DmabufFeedbackState {
    format_table: Vec<DmabufFormatModifier>,
    pending_formats: Vec<DmabufFormatModifier>,
    surface_formats: Vec<DmabufFormatModifier>,
    legacy_formats: Vec<DmabufFormatModifier>,
    surface_feedback_known: bool,
}

/// What a [`DmabufFeedbackState`] holds: the format table, the pending
/// tranche, the surface's formats and whether a feedback round has ended,
/// and the legacy formats.
pub struct DmabufFeedbackModel {
    pub format_table: Seq<DmabufFormatModifier>,
    pub pending_formats: Seq<DmabufFormatModifier>,
    pub surface_formats: Seq<DmabufFormatModifier>,
    pub legacy_formats: Seq<DmabufFormatModifier>,
    pub surface_feedback_known: bool,
}

impl View for DmabufFeedbackState {
    type V = DmabufFeedbackModel;

    closed spec fn view(&self) -> DmabufFeedbackModel {
        DmabufFeedbackModel {
            format_table: self.format_table@,
            pending_formats: self.pending_formats@,
            surface_formats: self.surface_formats@,
            legacy_formats: self.legacy_formats@,
            surface_feedback_known: self.surface_feedback_known,
        }
    }
}

impl Default for DmabufFeedbackState {
    fn default() -> (state: Self)
        ensures
            state@.format_table == Seq::<DmabufFormatModifier>::empty(),
            state@.pending_formats == Seq::<DmabufFormatModifier>::empty(),
            state@.surface_formats == Seq::<DmabufFormatModifier>::empty(),
            state@.legacy_formats == Seq::<DmabufFormatModifier>::empty(),
            !state@.surface_feedback_known,
    {
        DmabufFeedbackState {
            format_table: Vec::new(),
            pending_formats: Vec::new(),
            surface_formats: Vec::new(),
            legacy_formats: Vec::new(),
            surface_feedback_known: false,
        }
    }
}

impl DmabufFeedbackState {
    /// No format list that is handed to the renderer repeats an entry.
    #[verifier::type_invariant]
    spec fn wf(self) -> bool {
        &&& self@.pending_formats.no_duplicates()
        &&& self@.surface_formats.no_duplicates()
        &&& self@.legacy_formats.no_duplicates()
    }

    /// Records a format announced by the legacy `modifier` event.
    pub fn add_legacy_modifier(&mut self, fourcc: u32, modifier: u64)
        ensures
            final(self)@.legacy_formats == appended_unique(
                old(self)@.legacy_formats,
                seq![DmabufFormatModifier { fourcc, modifier }],
            ),
            final(self)@.format_table == old(self)@.format_table,
            final(self)@.pending_formats == old(self)@.pending_formats,
            final(self)@.surface_formats == old(self)@.surface_formats,
            final(self)@.surface_feedback_known == old(self)@.surface_feedback_known,
    {
        proof {
            use_type_invariant(&*self);
        }
        let format = DmabufFormatModifier { fourcc, modifier };
        let mut formats: Vec<DmabufFormatModifier> = Vec::new();
        std::mem::swap(&mut formats, &mut self.legacy_formats);
        push_unique(&mut formats, format);
        self.legacy_formats = formats;
        proof {
            let items = seq![format];
            assert(items.drop_last() =~= Seq::<DmabufFormatModifier>::empty());
            assert(items.last() == format);
            assert(appended_unique(old(self)@.legacy_formats, Seq::<DmabufFormatModifier>::empty())
                == old(self)@.legacy_formats);
        }
    }

    /// Forgets the previous table and tranche and checks the size of the new
    /// table. Returns the number of bytes to map, zero when the table is empty.
    pub fn begin_format_table(&mut self, size: u32) -> (bytes: Result<usize, DmabufError>)
        ensures
            final(self)@.format_table == Seq::<DmabufFormatModifier>::empty(),
            final(self)@.pending_formats == Seq::<DmabufFormatModifier>::empty(),
            !final(self)@.surface_feedback_known,
            final(self)@.surface_formats == old(self)@.surface_formats,
            final(self)@.legacy_formats == old(self)@.legacy_formats,
            size % 16 != 0 ==> bytes == Err::<usize, DmabufError>(
                DmabufError::TableSizeNotMultiple { size: size as usize },
            ),
            size % 16 == 0 && size / 16 > 65536 ==> bytes == Err::<usize, DmabufError>(
                DmabufError::TooManyTableEntries { count: (size / 16) as usize },
            ),
            size % 16 == 0 && size / 16 <= 65536 ==> bytes == Ok::<usize, DmabufError>(
                size as usize,
            ),
    {
        proof {
            use_type_invariant(&*self);
        }
        self.format_table = Vec::new();
        self.pending_formats = Vec::new();
        self.surface_feedback_known = false;
        let size = size as usize;
        if size == 0 {
            return Ok(0);
        }
        if size % FORMAT_TABLE_ENTRY_SIZE != 0 {
            return Err(DmabufError::TableSizeNotMultiple { size });
        }
        if size / FORMAT_TABLE_ENTRY_SIZE > MAX_FORMAT_COUNT {
            return Err(DmabufError::TooManyTableEntries { count: size / FORMAT_TABLE_ENTRY_SIZE });
        }
        Ok(size)
    }

    /// Installs a parsed format table.
    pub fn set_format_table(&mut self, table: Vec<DmabufFormatModifier>)
        ensures
            final(self)@.format_table == table@,
            final(self)@.pending_formats == old(self)@.pending_formats,
            final(self)@.surface_formats == old(self)@.surface_formats,
            final(self)@.legacy_formats == old(self)@.legacy_formats,
            final(self)@.surface_feedback_known == old(self)@.surface_feedback_known,
    {
        proof {
            use_type_invariant(&*self);
        }
        self.format_table = table;
    }

    /// Reads a new format table of `size` bytes. `mapped` holds the bytes of
    /// the table's memory mapping, or `None` when mapping it (or unmapping it
    /// afterwards) failed. The previous table and tranche are forgotten
    /// whatever the outcome; the new table is installed only when it is read.
    pub fn read_format_table(&mut self, size: u32, mapped: Option<&[u8]>) -> (outcome: Result<(), DmabufError>)
        requires
            mapped matches Some(bytes) ==> bytes@.len() == size,
        ensures
            final(self)@.pending_formats == Seq::<DmabufFormatModifier>::empty(),
            !final(self)@.surface_feedback_known,
            final(self)@.surface_formats == old(self)@.surface_formats,
            final(self)@.legacy_formats == old(self)@.legacy_formats,
            outcome is Ok <==> (size == 0 || (size % 16 == 0 && size / 16 <= 65536 && mapped is Some)),
            size % 16 != 0 ==> outcome == Err::<(), DmabufError>(DmabufError::TableSizeNotMultiple { size: size as usize }),
            size % 16 == 0 && size / 16 > 65536 ==> outcome == Err::<(), DmabufError>(
                DmabufError::TooManyTableEntries { count: (size / 16) as usize },
            ),
            size != 0 && size % 16 == 0 && size / 16 <= 65536 && mapped is None ==> outcome == Err::<(), DmabufError>(
                DmabufError::MappingFailed,
            ),
            outcome is Err || size == 0 ==> final(self)@.format_table == Seq::<DmabufFormatModifier>::empty(),
            outcome is Ok && size != 0 ==> final(self)@.format_table == table_entries(mapped->0@),
    {
        let bytes = match self.begin_format_table(size) {
            Ok(bytes) => bytes,
            Err(error) => return Err(error),
        };
        if bytes == 0 {
            return Ok(());
        }
        match mapped {
            Some(table) => {
                match parse_format_table(table) {
                    Ok(formats) => {
                        self.set_format_table(formats);
                        Ok(())
                    },
                    Err(error) => Err(error),
                }
            },
            None => Err(DmabufError::MappingFailed),
        }
    }

    /// Adds the formats a tranche names by table index to the pending tranche.
    /// On a bad index the formats before it stay added.
    pub fn add_tranche_indices(&mut self, indices: &[u8]) -> (outcome: Result<(), DmabufError>)
        ensures
            final(self)@.format_table == old(self)@.format_table,
            final(self)@.surface_formats == old(self)@.surface_formats,
            final(self)@.legacy_formats == old(self)@.legacy_formats,
            final(self)@.surface_feedback_known == old(self)@.surface_feedback_known,
            final(self)@.pending_formats.no_duplicates(),
            indices@.len() % 2 != 0 ==> {
                &&& outcome == Err::<(), DmabufError>(
                    DmabufError::OddTrancheIndexSize { len: indices@.len() as usize },
                )
                &&& final(self)@.pending_formats == old(self)@.pending_formats
            },
            indices@.len() % 2 == 0 ==> match first_bad_index(
                tranche_indices(indices@),
                old(self)@.format_table.len() as int,
            ) {
                None => {
                    &&& outcome is Ok
                    &&& final(self)@.pending_formats == appended_unique(
                        old(self)@.pending_formats,
                        formats_at(old(self)@.format_table, tranche_indices(indices@)),
                    )
                },
                Some(p) => {
                    &&& outcome == Err::<(), DmabufError>(
                        DmabufError::TrancheIndexOutOfRange {
                            index: tranche_indices(indices@)[p] as usize,
                            table_len: old(self)@.format_table.len() as usize,
                        },
                    )
                    &&& final(self)@.pending_formats == appended_unique(
                        old(self)@.pending_formats,
                        formats_at(old(self)@.format_table, tranche_indices(indices@).take(p)),
                    )
                },
            },
    {
        proof {
            use_type_invariant(&*self);
        }
        let len = indices.len();
        if len % 2 != 0 {
            return Err(DmabufError::OddTrancheIndexSize { len });
        }
        let count = len / 2;
        let ghost all = tranche_indices(indices@);
        let ghost table = self@.format_table;
        let ghost base = self@.pending_formats;
        for i in 0..count
            invariant
                len == indices@.len(),
                len % 2 == 0,
                count == len / 2,
                all == tranche_indices(indices@),
                table == self@.format_table,
                table == old(self)@.format_table,
                base == old(self)@.pending_formats,
                self.wf(),
                self@.surface_formats == old(self)@.surface_formats,
                self@.legacy_formats == old(self)@.legacy_formats,
                self@.surface_feedback_known == old(self)@.surface_feedback_known,
                forall|q: int| 0 <= q < i ==> all[q] < table.len(),
                self@.pending_formats == appended_unique(base, formats_at(table, all.take(i as int))),
        {
            assert(2 * i + 2 <= len) by (nonlinear_arith)
                requires
                    i < count,
                    count == len / 2,
            ;
            let index = read_u16_ne(indices, 2 * i) as usize;
            assert(all[i as int] == index);
            if index >= self.format_table.len() {
                proof {
                    let p = i as int;
                    assert(0 <= p < all.len() && all[p] >= table.len());
                    let c = choose|c: int|
                        0 <= c < all.len() && all[c] >= table.len() && forall|q: int|
                            0 <= q < c ==> all[q] < table.len();
                    assert(c == p) by {
                        if c < p {
                        } else if c > p {
                            assert(all[p] < table.len());
                        }
                    }
                }
                return Err(
                    DmabufError::TrancheIndexOutOfRange { index, table_len: self.format_table.len() },
                );
            }
            let format = self.format_table[index];
            let mut pending: Vec<DmabufFormatModifier> = Vec::new();
            std::mem::swap(&mut pending, &mut self.pending_formats);
            push_unique(&mut pending, format);
            self.pending_formats = pending;
            proof {
                let done = formats_at(table, all.take(i + 1));
                assert(done.drop_last() =~= formats_at(table, all.take(i as int)));
                assert(done.last() == format);
            }
        }
        proof {
            assert(all.take(count as int) =~= all);
            assert(!exists|p: int| 0 <= p < all.len() && all[p] >= table.len());
        }
        Ok(())
    }

    /// The compositor finished a round of surface feedback: the pending tranche
    /// becomes the surface's format list, which is returned.
    pub fn finish_surface_feedback(&mut self) -> (formats: Vec<DmabufFormatModifier>)
        ensures
            formats@ == old(self)@.pending_formats,
            formats@.no_duplicates(),
            final(self)@.surface_formats == old(self)@.pending_formats,
            final(self)@.pending_formats == Seq::<DmabufFormatModifier>::empty(),
            final(self)@.surface_feedback_known,
            final(self)@.format_table == old(self)@.format_table,
            final(self)@.legacy_formats == old(self)@.legacy_formats,
    {
        proof {
            use_type_invariant(&*self);
        }
        let mut taken: Vec<DmabufFormatModifier> = Vec::new();
        std::mem::swap(&mut taken, &mut self.pending_formats);
        self.surface_formats = taken;
        self.surface_feedback_known = true;
        copy_formats(&self.surface_formats)
    }

    /// The formats the renderer may allocate for a dmabuf protocol version:
    /// from version 4 those of the surface feedback, unknown until the first
    /// feedback round ends; in version 3 the legacy formats; before that none.
    pub fn formats_for_renderer(&self, protocol_version: u32) -> (formats: Option<
        Vec<DmabufFormatModifier>,
    >)
        ensures
            protocol_version >= 4 && !self@.surface_feedback_known ==> formats is None,
            protocol_version >= 4 && self@.surface_feedback_known ==> (formats matches Some(v)
                && v@ == self@.surface_formats),
            protocol_version == 3 ==> (formats matches Some(v) && v@ == self@.legacy_formats),
            protocol_version < 3 ==> (formats matches Some(v) && v@.len() == 0),
            formats matches Some(v) ==> v@.no_duplicates(),
    {
        proof {
            use_type_invariant(self);
        }
        if protocol_version >= 4 {
            if self.surface_feedback_known {
                return Some(copy_formats(&self.surface_formats));
            }
            return None;
        }
        if protocol_version >= 3 {
            return Some(copy_formats(&self.legacy_formats));
        }
        Some(Vec::new())
    }

    /// How many formats the renderer is offered for a protocol version.
    pub fn advertised_format_count(&self, protocol_version: u32) -> (count: usize)
        ensures
            protocol_version >= 4 ==> count == self@.surface_formats.len(),
            protocol_version == 3 ==> count == self@.legacy_formats.len(),
            protocol_version < 3 ==> count == 0,
    {
        if protocol_version >= 4 {
            return self.surface_formats.len();
        }
        if protocol_version >= 3 {
            return self.legacy_formats.len();
        }
        0
    }
}

impl DmabufFeedbackState {
    /// The current format table.
    pub fn format_table(&self) -> (table: &[DmabufFormatModifier])
        ensures
            table@ == self@.format_table,
    {
        self.format_table.as_slice()
    }

    /// The formats of the tranche being assembled.
    pub fn pending_formats(&self) -> (formats: &[DmabufFormatModifier])
        ensures
            formats@ == self@.pending_formats,
    {
        self.pending_formats.as_slice()
    }

    /// Whether a round of surface feedback has ended since the last table.
    pub fn surface_feedback_known(&self) -> (known: bool)
        ensures
            known == self@.surface_feedback_known,
    {
        self.surface_feedback_known
    }
}

proof fn lemma_push_unique_keeps_distinct(formats: Seq<DmabufFormatModifier>, format: DmabufFormatModifier)
    requires
        formats.no_duplicates(),
    ensures
        (if formats.contains(format) {
            formats
        } else {
            formats.push(format)
        }).no_duplicates(),
{
    if !formats.contains(format) {
        let pushed = formats.push(format);
        assert forall|i: int, j: int| 0 <= i < pushed.len() && 0 <= j < pushed.len() && i != j implies pushed[i] != pushed[j] by {
            if i == formats.len() as int {
                assert(formats[j] == pushed[j]);
            } else if j == formats.len() as int {
                assert(formats[i] == pushed[i]);
            }
        }
    }
}

} // verus!

verus! {

/// Deduplicating keeps every format: the result holds each base format and
/// each appended format, never twice.
pub proof fn lemma_appended_unique_keeps_every_format(
    base: Seq<DmabufFormatModifier>,
    items: Seq<DmabufFormatModifier>,
)
    requires
        base.no_duplicates(),
    ensures
        appended_unique(base, items).no_duplicates(),
        forall|x: DmabufFormatModifier| base.contains(x) ==> appended_unique(base, items).contains(x),
        forall|x: DmabufFormatModifier| items.contains(x) ==> appended_unique(base, items).contains(x),
        forall|x: DmabufFormatModifier|
            appended_unique(base, items).contains(x) ==> base.contains(x) || items.contains(x),
    decreases items.len(),
{
    if items.len() > 0 {
        let front = appended_unique(base, items.drop_last());
        lemma_appended_unique_keeps_every_format(base, items.drop_last());
        lemma_push_unique_keeps_distinct(front, items.last());
        let result = appended_unique(base, items);
        assert forall|x: DmabufFormatModifier| base.contains(x) implies result.contains(x) by {
            if !front.contains(items.last()) {
                let k = choose|k: int| 0 <= k < front.len() && front[k] == x;
                assert(result[k] == x);
            }
        }
        assert forall|x: DmabufFormatModifier| items.contains(x) implies result.contains(x) by {
            let k = choose|k: int| 0 <= k < items.len() && items[k] == x;
            if k < items.len() - 1 {
                assert(items.drop_last()[k] == x);
                assert(items.drop_last().contains(x));
                assert(front.contains(x));
                if !front.contains(items.last()) {
                    let m = choose|m: int| 0 <= m < front.len() && front[m] == x;
                    assert(result[m] == x);
                }
            } else if !front.contains(items.last()) {
                assert(result[front.len() as int] == x);
            }
        }
        assert forall|x: DmabufFormatModifier| result.contains(x) implies base.contains(x) || items.contains(x) by {
            let k = choose|k: int| 0 <= k < result.len() && result[k] == x;
            if k < front.len() {
                assert(front[k] == x);
                assert(front.contains(x));
                if items.drop_last().contains(x) {
                    let m = choose|m: int| 0 <= m < items.drop_last().len() && items.drop_last()[m] == x;
                    assert(items[m] == x);
                }
            } else {
                assert(x == items.last());
                assert(items[items.len() - 1] == x);
            }
        }
    }
}

} // verus!
