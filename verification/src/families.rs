//! Metric families: counters, gauges and histograms told apart by labels.
//!
//! A family keeps one cell per combination of label values. Cells are found by
//! a hash of the label values written one after the other, so combinations
//! that read the same when joined share a cell.

use prometheus::{HistogramOpts, HistogramVec, IntCounterVec, IntGaugeVec, Opts, Registry};
use std::time::Duration;
use vstd::prelude::*;
use vstd::utf8::{encode_utf8, is_ascii_chars_encode_utf8};

verus! {

/// A registry with the metric families that it holds. Counters, gauges and
/// histograms are counted apart, in the order of their registration.
#[verifier::external_body]
pub struct MetricStore {
    registry: Registry,
    counters: Vec<IntCounterVec>,
    gauges: Vec<IntGaugeVec>,
    histograms: Vec<HistogramVec>,
}

/// The kind of a metric family.
pub enum FamilyKind {
    Counter,
    Gauge,
    Histogram,
}

/// What a family was registered with.
pub struct FamilyDesc {
    pub kind: FamilyKind,
    pub name: Seq<char>,
    pub help: Seq<char>,
    pub labels: Seq<Seq<char>>,
}

/// A family's description.
pub open spec fn family(
    kind: FamilyKind,
    name: Seq<char>,
    help: Seq<char>,
    labels: Seq<Seq<char>>,
) -> FamilyDesc {
    FamilyDesc { kind, name, help, labels }
}

/// The texts of a list.
pub open spec fn texts(list: Seq<&str>) -> Seq<Seq<char>> {
    list.map_values(|text: &str| text@)
}

/// Whether a name may hold a character, at its start or behind it.
pub open spec fn ident_char(c: char, colon: bool) -> bool {
    ('a' <= c && c <= 'z') || ('A' <= c && c <= 'Z') || c == '_' || (colon && c == ':')
}

/// Whether the first characters of a text make a name.
pub open spec fn ident_prefix(text: Seq<char>, n: nat, colon: bool) -> bool
    decreases n,
{
    n == 0 || ({
        let c = text[n - 1];
        ident_prefix(text, (n - 1) as nat, colon) && (ident_char(c, colon) || (n > 1 && '0' <= c
            && c <= '9'))
    })
}

/// Whether a text is a name, with colons or without.
pub open spec fn valid_ident(text: Seq<char>, colon: bool) -> bool {
    text.len() > 0 && ident_prefix(text, text.len(), colon)
}

/// Whether a family may be registered under a name, with a help text and
/// labels.
pub open spec fn valid_family(
    name: Seq<char>,
    help: Seq<char>,
    labels: Seq<Seq<char>>,
) -> bool {
    &&& help.len() > 0
    &&& valid_ident(name, true)
    &&& labels.no_duplicates()
    &&& forall|i: int| 0 <= i < labels.len() ==> valid_ident(#[trigger] labels[i], false)
}

/// A hash into which one more byte is mixed: the byte is added bitwise, and the
/// product with the prime is cut to 64 bits.
pub open spec fn fnv_step(hash: u64, byte: u8) -> u64 {
    ((hash ^ (byte as u64)) * 0x100000001b3u64) as u64
}

/// The hash of no bytes.
pub const FNV_START: u64 = 0xcbf29ce484222325;

/// The hash of the first bytes of a sequence.
pub open spec fn fnv_prefix(bytes: Seq<u8>, n: nat) -> u64
    decreases n,
{
    if n == 0 {
        FNV_START
    } else {
        fnv_step(fnv_prefix(bytes, (n - 1) as nat), bytes[n - 1])
    }
}

/// The hash (FNV-1a) of bytes.
pub open spec fn fnv(bytes: Seq<u8>) -> u64 {
    fnv_prefix(bytes, bytes.len())
}

/// The hash of a family's name, by which a registry tells families apart. A
/// separator stands behind the name.
pub open spec fn family_hash(name: Seq<char>) -> u64 {
    fnv(encode_utf8(name).push(0xff))
}

/// Whether no family of a list has the hash of a name.
pub open spec fn hash_is_free(families: Seq<FamilyDesc>, name: Seq<char>) -> bool {
    forall|i: int|
        0 <= i < families.len() ==> family_hash(#[trigger] families[i].name) != family_hash(name)
}

/// A cell of a counter: the label values under which it was first written, and
/// how often it was counted up.
pub struct Counter {
    pub labels: Seq<Seq<char>>,
    pub count: u64,
}

/// A cell of a gauge.
pub struct Gauge {
    pub labels: Seq<Seq<char>>,
    pub level: i64,
}

/// A cell of a histogram: how many samples it took, and the bits of their sum in
/// seconds.
pub struct Histogram {
    pub labels: Seq<Seq<char>>,
    pub count: u64,
    pub sum: u64,
}

/// The counter families of a store.
pub uninterp spec fn counter_descs(store: MetricStore) -> Seq<FamilyDesc>;

/// The cells of each counter family of a store, by hash.
pub uninterp spec fn counter_cells(store: MetricStore) -> Seq<Map<u64, Counter>>;

/// The gauge families of a store.
pub uninterp spec fn gauge_descs(store: MetricStore) -> Seq<FamilyDesc>;

/// The cells of each gauge family of a store, by hash.
pub uninterp spec fn gauge_cells(store: MetricStore) -> Seq<Map<u64, Gauge>>;

/// The histogram families of a store.
pub uninterp spec fn histogram_descs(store: MetricStore) -> Seq<FamilyDesc>;

/// The cells of each histogram family of a store, by hash.
pub uninterp spec fn histogram_cells(store: MetricStore) -> Seq<Map<u64, Histogram>>;

/// The bits of the floating-point number that a histogram makes of the bits of
/// its sum and the seconds of one more sample.
pub uninterp spec fn sum_after(bits: u64, duration: Duration) -> u64;

/// The text of what a store holds.
pub uninterp spec fn store_text(store: MetricStore) -> Seq<char>;

/// Every family of a store.
pub open spec fn held(store: MetricStore) -> Seq<FamilyDesc> {
    counter_descs(store) + gauge_descs(store) + histogram_descs(store)
}

/// No families.
pub open spec fn no_families() -> Seq<FamilyDesc> {
    Seq::empty()
}

/// The cells of no counter families.
pub open spec fn no_counter_cells() -> Seq<Map<u64, Counter>> {
    Seq::empty()
}

/// The cells of no gauge families.
pub open spec fn no_gauge_cells() -> Seq<Map<u64, Gauge>> {
    Seq::empty()
}

/// The cells of no histogram families.
pub open spec fn no_histogram_cells() -> Seq<Map<u64, Histogram>> {
    Seq::empty()
}

/// The hash of joined label values, by which a family finds a cell.
pub open spec fn label_hash(joined: Seq<char>) -> u64 {
    fnv(encode_utf8(joined))
}

/// The cell of a combination of label values.
pub open spec fn cell(values: Seq<Seq<char>>) -> u64 {
    label_hash(values.flatten())
}

/// A counter family without cells.
pub open spec fn no_counters() -> Map<u64, Counter> {
    Map::empty()
}

/// A gauge family without cells.
pub open spec fn no_gauges() -> Map<u64, Gauge> {
    Map::empty()
}

/// A histogram family without cells.
pub open spec fn no_histograms() -> Map<u64, Histogram> {
    Map::empty()
}

/// The cell of label values: one that was not counted yet where nothing was
/// written to it.
pub open spec fn counter_at(cells: Map<u64, Counter>, values: Seq<Seq<char>>) -> Counter {
    if cells.contains_key(cell(values)) {
        cells[cell(values)]
    } else {
        Counter { labels: values, count: 0 }
    }
}

/// The cell of label values: one at zero where nothing was written to it.
pub open spec fn gauge_at(cells: Map<u64, Gauge>, values: Seq<Seq<char>>) -> Gauge {
    if cells.contains_key(cell(values)) {
        cells[cell(values)]
    } else {
        Gauge { labels: values, level: 0 }
    }
}

/// The cell of label values: one without samples where nothing was written to
/// it. The sum of no samples has no bit set.
pub open spec fn histogram_at(cells: Map<u64, Histogram>, values: Seq<Seq<char>>) -> Histogram {
    if cells.contains_key(cell(values)) {
        cells[cell(values)]
    } else {
        Histogram { labels: values, count: 0, sum: 0 }
    }
}

/// One more, starting over behind the last value.
pub open spec fn count_after(value: u64) -> u64 {
    if value == u64::MAX {
        0
    } else {
        (value + 1) as u64
    }
}

/// One more, starting over behind the last value.
pub open spec fn level_after(value: i64) -> i64 {
    if value == i64::MAX {
        i64::MIN
    } else {
        (value + 1) as i64
    }
}

/// One less, starting over before the first value.
pub open spec fn level_before(value: i64) -> i64 {
    if value == i64::MIN {
        i64::MAX
    } else {
        (value - 1) as i64
    }
}

/// The cells with one more counted under label values.
pub open spec fn counted(cells: Map<u64, Counter>, values: Seq<Seq<char>>) -> Map<u64, Counter> {
    let counter = counter_at(cells, values);
    cells.insert(cell(values), Counter { count: count_after(counter.count), ..counter })
}

/// One sample more; a histogram counts in 63 bits.
pub open spec fn samples_after(value: u64) -> u64 {
    if value >= 0x7fff_ffff_ffff_ffff {
        0
    } else {
        (value + 1) as u64
    }
}

/// The cells with one more sample under label values, and a new sum.
pub open spec fn sampled(cells: Map<u64, Histogram>, values: Seq<Seq<char>>, sum: u64) -> Map<
    u64,
    Histogram,
> {
    let histogram = histogram_at(cells, values);
    cells.insert(
        cell(values),
        Histogram { count: samples_after(histogram.count), sum, ..histogram },
    )
}

/// The cells with the duration of one more sample under label values.
pub open spec fn timed(
    cells: Map<u64, Histogram>,
    values: Seq<Seq<char>>,
    duration: Duration,
) -> Map<u64, Histogram> {
    sampled(cells, values, sum_after(histogram_at(cells, values).sum, duration))
}

/// The cells with the gauge under label values at a level.
pub open spec fn leveled(cells: Map<u64, Gauge>, values: Seq<Seq<char>>, level: i64) -> Map<
    u64,
    Gauge,
> {
    cells.insert(cell(values), Gauge { level, ..gauge_at(cells, values) })
}

/// The cells with the gauge under label values raised by one.
pub open spec fn raised(cells: Map<u64, Gauge>, values: Seq<Seq<char>>) -> Map<u64, Gauge> {
    leveled(cells, values, level_after(gauge_at(cells, values).level))
}

/// The cells with the gauge under label values lowered by one.
pub open spec fn lowered(cells: Map<u64, Gauge>, values: Seq<Seq<char>>) -> Map<u64, Gauge> {
    leveled(cells, values, level_before(gauge_at(cells, values).level))
}

/// Counting under label values changes their cell and no other, and a cell keeps
/// the label values under which it was first written.
pub proof fn law_counting_touches_one_cell(
    cells: Map<u64, Counter>,
    values: Seq<Seq<char>>,
    other: Seq<Seq<char>>,
)
    ensures
        counter_at(counted(cells, values), values).count == count_after(
            counter_at(cells, values).count,
        ),
        counter_at(counted(cells, values), values).labels == counter_at(cells, values).labels,
        cell(other) != cell(values) ==> counter_at(counted(cells, values), other) == counter_at(
            cells,
            other,
        ),
{
}

/// A sample under label values changes their cell and no other.
pub proof fn law_sampling_touches_one_cell(
    cells: Map<u64, Histogram>,
    values: Seq<Seq<char>>,
    other: Seq<Seq<char>>,
    duration: Duration,
)
    ensures
        histogram_at(timed(cells, values, duration), values) == (Histogram {
            count: samples_after(histogram_at(cells, values).count),
            sum: sum_after(histogram_at(cells, values).sum, duration),
            ..histogram_at(cells, values)
        }),
        cell(other) != cell(values) ==> histogram_at(timed(cells, values, duration), other)
            == histogram_at(cells, other),
{
}

/// The names that families may have are made of single bytes.
pub proof fn lemma_names_are_ascii(name: Seq<char>)
    requires
        valid_ident(name, true),
    ensures
        encode_utf8(name).len() == name.len(),
        forall|i: int| 0 <= i < name.len() ==> #[trigger] encode_utf8(name)[i] == name[i] as u8,
{
    lemma_prefixes_are_ascii(name, name.len());
    is_ascii_chars_encode_utf8(name);
}

proof fn lemma_prefixes_are_ascii(name: Seq<char>, n: nat)
    requires
        n <= name.len(),
        ident_prefix(name, n, true),
    ensures
        forall|i: int| 0 <= i < n ==> '\0' <= #[trigger] name[i] <= '\u{7f}',
    decreases n,
{
    if n > 0 {
        lemma_prefixes_are_ascii(name, (n - 1) as nat);
    }
}

/// The samples of counter families: each family with the label values of its cells.
pub open spec fn counter_samples(descs: Seq<FamilyDesc>, cells: Seq<Map<u64, Counter>>) -> Set<
    (FamilyDesc, Seq<Seq<char>>),
> {
    Set::new(
        |sample: (FamilyDesc, Seq<Seq<char>>)|
            exists|i: int, key: u64|
                0 <= i < descs.len() && #[trigger] descs[i] == sample.0
                    && #[trigger] cells[i].contains_key(key) && cells[i][key].labels == sample.1,
    )
}

/// The samples of gauge families: each family with the label values of its cells.
pub open spec fn gauge_samples(descs: Seq<FamilyDesc>, cells: Seq<Map<u64, Gauge>>) -> Set<
    (FamilyDesc, Seq<Seq<char>>),
> {
    Set::new(
        |sample: (FamilyDesc, Seq<Seq<char>>)|
            exists|i: int, key: u64|
                0 <= i < descs.len() && #[trigger] descs[i] == sample.0
                    && #[trigger] cells[i].contains_key(key) && cells[i][key].labels == sample.1,
    )
}

/// The samples of histogram families: each family with the label values of its cells.
pub open spec fn histogram_samples(descs: Seq<FamilyDesc>, cells: Seq<Map<u64, Histogram>>) -> Set<
    (FamilyDesc, Seq<Seq<char>>),
> {
    Set::new(
        |sample: (FamilyDesc, Seq<Seq<char>>)|
            exists|i: int, key: u64|
                0 <= i < descs.len() && #[trigger] descs[i] == sample.0
                    && #[trigger] cells[i].contains_key(key) && cells[i][key].labels == sample.1,
    )
}

/// What a store has samples of.
pub open spec fn written(store: MetricStore) -> Set<(FamilyDesc, Seq<Seq<char>>)> {
    counter_samples(counter_descs(store), counter_cells(store)) + gauge_samples(
        gauge_descs(store),
        gauge_cells(store),
    ) + histogram_samples(histogram_descs(store), histogram_cells(store))
}

/// A text on one line: backslashes, line ends and, where they would end it,
/// quotes are written out.
pub open spec fn escaped(text: Seq<char>, quoted: bool) -> Seq<char>
    decreases text.len(),
{
    if text.len() == 0 {
        Seq::empty()
    } else {
        let c = text.last();
        escaped(text.drop_last(), quoted) + if c == '\\' {
            seq!['\\', '\\']
        } else if c == '\n' {
            seq!['\\', 'n']
        } else if quoted && c == '"' {
            seq!['\\', '"']
        } else {
            seq![c]
        }
    }
}

/// The word for a kind.
pub open spec fn kind_word(kind: FamilyKind) -> Seq<char> {
    match kind {
        FamilyKind::Counter => "counter"@,
        FamilyKind::Gauge => "gauge"@,
        FamilyKind::Histogram => "histogram"@,
    }
}

/// The lines above the samples of a family.
pub open spec fn header(desc: FamilyDesc) -> Seq<char> {
    "# HELP "@ + desc.name + " "@ + escaped(desc.help, false) + "\n"@ + "# TYPE "@ + desc.name
        + " "@ + kind_word(desc.kind) + "\n"@
}

/// Families one after the other, each with its samples.
pub open spec fn listing(shown: Seq<FamilyDesc>, samples: Seq<Seq<char>>) -> Seq<char>
    decreases shown.len(),
{
    if shown.len() == 0 {
        Seq::empty()
    } else {
        listing(shown.drop_last(), samples.drop_last()) + header(shown.last()) + samples.last()
    }
}

/// Whether a text comes before another.
pub open spec fn comes_before(a: Seq<char>, b: Seq<char>) -> bool {
    exists|n: int|
        0 <= n <= a.len() && n < b.len() && #[trigger] a.take(n) == b.take(n) && (n == a.len()
            || a[n] < b[n])
}

/// The place of the label whose name comes first.
pub open spec fn first_label(labels: Seq<Seq<char>>) -> int {
    choose|i: int|
        0 <= i < labels.len() && forall|j: int|
            0 <= j < labels.len() && j != i ==> comes_before(#[trigger] labels[i], labels[j])
}

/// The first labels of a sample with their values, by the names of the labels.
pub open spec fn pairs_text(labels: Seq<Seq<char>>, values: Seq<Seq<char>>, n: nat) -> Seq<char>
    decreases n,
{
    if n == 0 {
        Seq::empty()
    } else {
        let i = first_label(labels);
        labels[i] + "=\""@ + escaped(values[i], true) + "\""@ + if n == 1 {
            Seq::empty()
        } else {
            ","@
        } + pairs_text(labels.remove(i), values.remove(i), (n - 1) as nat)
    }
}

/// The labels of a sample with their values.
pub open spec fn labels_text(labels: Seq<Seq<char>>, values: Seq<Seq<char>>) -> Seq<char> {
    if labels.len() == 0 {
        Seq::empty()
    } else {
        "{"@ + pairs_text(labels, values, labels.len()) + "}"@
    }
}

/// The line of a sample.
pub open spec fn line(
    name: Seq<char>,
    labels: Seq<Seq<char>>,
    values: Seq<Seq<char>>,
    number: Seq<char>,
) -> Seq<char> {
    name + labels_text(labels, values) + " "@ + number + "\n"@
}

/// Whether a text is that of one cell of a family: a line with a number, and for
/// a histogram two such lines, with the sum and the count of its samples, behind
/// those of its buckets.
pub open spec fn tells_cell(text: Seq<char>, desc: FamilyDesc, values: Seq<Seq<char>>) -> bool {
    if desc.kind is Histogram {
        exists|buckets: Seq<char>, sum: Seq<char>, count: Seq<char>|
            text == #[trigger] (buckets + line(desc.name + "_sum"@, desc.labels, values, sum)
                + line(desc.name + "_count"@, desc.labels, values, count))
    } else {
        exists|number: Seq<char>|
            text == #[trigger] line(desc.name, desc.labels, values, number)
    }
}

/// Whether a text tells of cells of a family, one after the other.
pub open spec fn tells_cells(
    text: Seq<char>,
    desc: FamilyDesc,
    cells: Seq<Seq<Seq<char>>>,
    parts: Seq<Seq<char>>,
) -> bool {
    &&& cells.len() > 0
    &&& parts.len() == cells.len()
    &&& text == parts.flatten()
    &&& forall|i: int| 0 <= i < cells.len() ==> tells_cell(#[trigger] parts[i], desc, cells[i])
}

/// Whether a text lists families in the order of their names, each with the
/// cells of the given label values.
pub open spec fn lists(
    text: Seq<char>,
    shown: Seq<FamilyDesc>,
    cells: Seq<Seq<Seq<Seq<char>>>>,
    samples: Seq<Seq<char>>,
) -> bool {
    &&& shown.len() == cells.len()
    &&& shown.len() == samples.len()
    &&& text == listing(shown, samples)
    &&& forall|i: int|
        0 <= i < shown.len() ==> exists|parts: Seq<Seq<char>>| #[trigger]
            tells_cells(#[trigger] samples[i], shown[i], cells[i], parts)
    &&& forall|i: int|
        0 <= i < cells.len() ==> (#[trigger] cells[i]).len() > 0 && cells[i].no_duplicates()
    &&& forall|i: int, j: int|
        0 <= i < j < shown.len() ==> comes_before(
            (#[trigger] shown[i]).name,
            (#[trigger] shown[j]).name,
        )
}

/// The families and label values that a listing shows.
pub open spec fn listed(shown: Seq<FamilyDesc>, cells: Seq<Seq<Seq<Seq<char>>>>) -> Set<
    (FamilyDesc, Seq<Seq<char>>),
> {
    Set::new(
        |sample: (FamilyDesc, Seq<Seq<char>>)|
            exists|i: int|
                0 <= i < shown.len() && #[trigger] shown[i] == sample.0 && cells[i].contains(
                    sample.1,
                ),
    )
}

/// Whether a text shows exactly the samples of the given families and label
/// values.
pub open spec fn shows(text: Seq<char>, samples: Set<(FamilyDesc, Seq<Seq<char>>)>) -> bool {
    exists|
        shown: Seq<FamilyDesc>,
        cells: Seq<Seq<Seq<Seq<char>>>>,
        lines: Seq<Seq<char>>,
    | #[trigger]
        lists(text, shown, cells, lines) && listed(shown, cells) == samples
}

/// A text that shows no sample is empty.
pub proof fn law_nothing_written_shows_nothing(text: Seq<char>)
    requires
        shows(text, Set::empty()),
    ensures
        text == Seq::<char>::empty(),
{
    let none = Set::<(FamilyDesc, Seq<Seq<char>>)>::empty();
    let (shown, cells, lines) = choose|
        shown: Seq<FamilyDesc>,
        cells: Seq<Seq<Seq<Seq<char>>>>,
        lines: Seq<Seq<char>>,
    | #[trigger]
        lists(text, shown, cells, lines) && listed(shown, cells) == none;
    if shown.len() > 0 {
        assert(cells[0].len() > 0);
        let sample = (shown[0], cells[0][0]);
        assert(shown[0] == sample.0 && cells[0].contains(sample.1));
        assert(listed(shown, cells).contains(sample));
        assert(none.contains(sample));
    }
}

impl MetricStore {
    /// `prometheus::Registry::new`: a registry without families.
    #[verifier::external_body]
    pub(crate) fn new() -> (r: MetricStore)
        ensures
            counter_descs(r) == no_families(),
            counter_cells(r) == no_counter_cells(),
            gauge_descs(r) == no_families(),
            gauge_cells(r) == no_gauge_cells(),
            histogram_descs(r) == no_families(),
            histogram_cells(r) == no_histogram_cells(),
    {
        MetricStore {
            registry: Registry::new(),
            counters: Vec::new(),
            gauges: Vec::new(),
            histograms: Vec::new(),
        }
    }

    /// `prometheus::IntCounterVec::new` and `Registry::register`: a counter family
    /// without cells, which the registry then holds. It is refused exactly when
    /// its name, its help or its labels are not allowed, or when the registry
    /// holds a family whose name has the same hash.
    #[verifier::external_body]
    pub(crate) fn register_counter_vec(
        &mut self,
        name: &str,
        help: &str,
        labels: &Vec<&str>,
    ) -> (r: Result<(), String>)
        ensures
            r is Ok <==> (valid_family(name@, help@, texts(labels@)) && forall|i: int|
                0 <= i < held(*old(self)).len() ==> family_hash(
                    #[trigger] held(*old(self))[i].name,
                ) != family_hash(name@)),
            counter_descs(*final(self)) == if r is Ok {
                counter_descs(*old(self)).push(
                    family(FamilyKind::Counter, name@, help@, texts(labels@)),
                )
            } else {
                counter_descs(*old(self))
            },
            counter_cells(*final(self)) == if r is Ok {
                counter_cells(*old(self)).push(no_counters())
            } else {
                counter_cells(*old(self))
            },
            gauge_descs(*final(self)) == gauge_descs(*old(self)),
            gauge_cells(*final(self)) == gauge_cells(*old(self)),
            histogram_descs(*final(self)) == histogram_descs(*old(self)),
            histogram_cells(*final(self)) == histogram_cells(*old(self)),
    {
        let opts = Opts::new(name, help);
        let made = IntCounterVec::new(opts, labels).map_err(|err| err.to_string())?;
        self.registry.register(Box::new(made.clone())).map_err(|err| err.to_string())?;
        self.counters.push(made);
        Ok(())
    }

    /// `prometheus::IntGaugeVec::new` and `Registry::register`: a gauge family
    /// without cells, which the registry then holds. It is refused exactly when
    /// its name, its help or its labels are not allowed, or when the registry
    /// holds a family whose name has the same hash.
    #[verifier::external_body]
    pub(crate) fn register_gauge_vec(
        &mut self,
        name: &str,
        help: &str,
        labels: &Vec<&str>,
    ) -> (r: Result<(), String>)
        ensures
            r is Ok <==> (valid_family(name@, help@, texts(labels@)) && forall|i: int|
                0 <= i < held(*old(self)).len() ==> family_hash(
                    #[trigger] held(*old(self))[i].name,
                ) != family_hash(name@)),
            gauge_descs(*final(self)) == if r is Ok {
                gauge_descs(*old(self)).push(
                    family(FamilyKind::Gauge, name@, help@, texts(labels@)),
                )
            } else {
                gauge_descs(*old(self))
            },
            gauge_cells(*final(self)) == if r is Ok {
                gauge_cells(*old(self)).push(no_gauges())
            } else {
                gauge_cells(*old(self))
            },
            counter_descs(*final(self)) == counter_descs(*old(self)),
            counter_cells(*final(self)) == counter_cells(*old(self)),
            histogram_descs(*final(self)) == histogram_descs(*old(self)),
            histogram_cells(*final(self)) == histogram_cells(*old(self)),
    {
        let opts = Opts::new(name, help);
        let made = IntGaugeVec::new(opts, labels).map_err(|err| err.to_string())?;
        self.registry.register(Box::new(made.clone())).map_err(|err| err.to_string())?;
        self.gauges.push(made);
        Ok(())
    }

    /// `prometheus::HistogramVec::new` and `Registry::register`: a histogram family
    /// without cells, which the registry then holds. It is refused exactly when
    /// its name, its help or its labels are not allowed, or when the registry
    /// holds a family whose name has the same hash. The label `le` is left
    /// out: no sample could be added.
    #[verifier::external_body]
    pub(crate) fn register_histogram_vec(
        &mut self,
        name: &str,
        help: &str,
        labels: &Vec<&str>,
    ) -> (r: Result<(), String>)
        requires
            !texts(labels@).contains("le"@),
        ensures
            r is Ok <==> (valid_family(name@, help@, texts(labels@)) && forall|i: int|
                0 <= i < held(*old(self)).len() ==> family_hash(
                    #[trigger] held(*old(self))[i].name,
                ) != family_hash(name@)),
            histogram_descs(*final(self)) == if r is Ok {
                histogram_descs(*old(self)).push(
                    family(FamilyKind::Histogram, name@, help@, texts(labels@)),
                )
            } else {
                histogram_descs(*old(self))
            },
            histogram_cells(*final(self)) == if r is Ok {
                histogram_cells(*old(self)).push(no_histograms())
            } else {
                histogram_cells(*old(self))
            },
            counter_descs(*final(self)) == counter_descs(*old(self)),
            counter_cells(*final(self)) == counter_cells(*old(self)),
            gauge_descs(*final(self)) == gauge_descs(*old(self)),
            gauge_cells(*final(self)) == gauge_cells(*old(self)),
    {
        let opts = HistogramOpts::new(name, help);
        let made = HistogramVec::new(opts, labels).map_err(|err| err.to_string())?;
        self.registry.register(Box::new(made.clone())).map_err(|err| err.to_string())?;
        self.histograms.push(made);
        Ok(())
    }

    /// `with_label_values(..).inc()` of `prometheus::IntCounterVec`: counts one
    /// more in the cell of the label values, and in no other.
    #[verifier::external_body]
    pub(crate) fn count(&mut self, index: usize, values: &Vec<&str>)
        requires
            index < counter_descs(*old(self)).len(),
            values@.len() == counter_descs(*old(self))[index as int].labels.len(),
        ensures
            counter_cells(*final(self)) == counter_cells(*old(self)).update(
                index as int,
                counted(
                    counter_cells(*old(self))[index as int],
                    texts(values@),
                ),
            ),
            gauge_cells(*final(self)) == gauge_cells(*old(self)),
            histogram_cells(*final(self)) == histogram_cells(*old(self)),
            counter_descs(*final(self)) == counter_descs(*old(self)),
            gauge_descs(*final(self)) == gauge_descs(*old(self)),
            histogram_descs(*final(self)) == histogram_descs(*old(self)),
    {
        self.counters[index].with_label_values(values).inc();
    }

    /// `with_label_values(..).inc()` of `prometheus::IntGaugeVec`: raises the
    /// cell of the label values by one, and no other.
    #[verifier::external_body]
    pub(crate) fn raise(&mut self, index: usize, values: &Vec<&str>)
        requires
            index < gauge_descs(*old(self)).len(),
            values@.len() == gauge_descs(*old(self))[index as int].labels.len(),
        ensures
            gauge_cells(*final(self)) == gauge_cells(*old(self)).update(
                index as int,
                raised(
                    gauge_cells(*old(self))[index as int],
                    texts(values@),
                ),
            ),
            counter_cells(*final(self)) == counter_cells(*old(self)),
            histogram_cells(*final(self)) == histogram_cells(*old(self)),
            counter_descs(*final(self)) == counter_descs(*old(self)),
            gauge_descs(*final(self)) == gauge_descs(*old(self)),
            histogram_descs(*final(self)) == histogram_descs(*old(self)),
    {
        self.gauges[index].with_label_values(values).inc();
    }

    /// `with_label_values(..).dec()` of `prometheus::IntGaugeVec`: lowers the
    /// cell of the label values by one, and no other.
    #[verifier::external_body]
    pub(crate) fn lower(&mut self, index: usize, values: &Vec<&str>)
        requires
            index < gauge_descs(*old(self)).len(),
            values@.len() == gauge_descs(*old(self))[index as int].labels.len(),
        ensures
            gauge_cells(*final(self)) == gauge_cells(*old(self)).update(
                index as int,
                lowered(
                    gauge_cells(*old(self))[index as int],
                    texts(values@),
                ),
            ),
            counter_cells(*final(self)) == counter_cells(*old(self)),
            histogram_cells(*final(self)) == histogram_cells(*old(self)),
            counter_descs(*final(self)) == counter_descs(*old(self)),
            gauge_descs(*final(self)) == gauge_descs(*old(self)),
            histogram_descs(*final(self)) == histogram_descs(*old(self)),
    {
        self.gauges[index].with_label_values(values).dec();
    }

    /// `with_label_values(..).set(..)` of `prometheus::IntGaugeVec`: writes the
    /// cell of the label values, and no other.
    #[verifier::external_body]
    pub(crate) fn set(&mut self, index: usize, values: &Vec<&str>, value: i64)
        requires
            index < gauge_descs(*old(self)).len(),
            values@.len() == gauge_descs(*old(self))[index as int].labels.len(),
        ensures
            gauge_cells(*final(self)) == gauge_cells(*old(self)).update(
                index as int,
                leveled(gauge_cells(*old(self))[index as int], texts(values@), value),
            ),
            counter_cells(*final(self)) == counter_cells(*old(self)),
            histogram_cells(*final(self)) == histogram_cells(*old(self)),
            counter_descs(*final(self)) == counter_descs(*old(self)),
            gauge_descs(*final(self)) == gauge_descs(*old(self)),
            histogram_descs(*final(self)) == histogram_descs(*old(self)),
    {
        self.gauges[index].with_label_values(values).set(value);
    }

    /// `with_label_values(..).observe(..)` of `prometheus::HistogramVec`: adds a
    /// sample, the seconds of `duration`, to the cell of the label values, and
    /// to no other. The sum is a floating-point number, so its bits are named;
    /// the buckets are not stated.
    #[verifier::external_body]
    pub(crate) fn observe(&mut self, index: usize, values: &Vec<&str>, duration: Duration)
        requires
            index < histogram_descs(*old(self)).len(),
            values@.len() == histogram_descs(*old(self))[index as int].labels.len(),
        ensures
            histogram_cells(*final(self)) == histogram_cells(*old(self)).update(
                index as int,
                sampled(
                    histogram_cells(*old(self))[index as int],
                    texts(values@),
                    sum_after(
                        histogram_at(
                            histogram_cells(*old(self))[index as int],
                            texts(values@),
                        ).sum,
                        duration,
                    ),
                ),
            ),
            counter_cells(*final(self)) == counter_cells(*old(self)),
            gauge_cells(*final(self)) == gauge_cells(*old(self)),
            counter_descs(*final(self)) == counter_descs(*old(self)),
            gauge_descs(*final(self)) == gauge_descs(*old(self)),
            histogram_descs(*final(self)) == histogram_descs(*old(self)),
    {
        self.histograms[index].with_label_values(values).observe(duration.as_secs_f64());
    }

    /// `prometheus::Registry::gather` and `TextEncoder::encode`: the text of what
    /// the registry holds. It is named, and it lists the families to which
    /// something was written, and no others, in the order of their names, each
    /// under its two header lines and with one sample for each of its cells. A
    /// sample carries the label values under which its cell was first written.
    /// The numbers are not stated, for they are those of floating-point values;
    /// nor are the lines of the buckets, nor the order of the cells.
    #[verifier::external_body]
    pub(crate) fn render(&self) -> (r: String)
        ensures
            r@ == store_text(*self),
            shows(r@, written(*self)),
    {
        let mut buffer = Vec::new();
        let encoder = prometheus::TextEncoder::new();
        let _ = prometheus::Encoder::encode(&encoder, &self.registry.gather(), &mut buffer);
        String::from_utf8(buffer).unwrap_or_default()
    }
}

} // verus!
