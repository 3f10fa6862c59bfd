use vstd::prelude::*;
use vstd::seq_lib::to_multiset_insert;

use crate::station::Station;
use crate::store::{PostcodeEntry, PriceStore};
use crate::text::{
    has_no_newline, lemma_decimal_reads_back, lemma_split_on_plain_suffix, lemma_split_on_separated,
    split_on, tenths_text, tenths_value_text, texts,
};

verus! {

/// The HELP comment line that opens every exposition.
pub open spec fn help_line() -> Seq<char> {
    "# HELP fuel_price Fuel price"@
}

/// The TYPE comment line that follows the HELP line.
pub open spec fn type_line() -> Seq<char> {
    "# TYPE fuel_price gauge"@
}

/// One gauge line: the price of `fuel` at station `name`, found for `postcode`.
pub open spec fn fuel_line(
    postcode: Seq<char>,
    fuel: Seq<char>,
    name: Seq<char>,
    distance: Seq<char>,
    raw_price: nat,
) -> Seq<char> {
    "fuel_price{postcode=\""@ + postcode + "\", type=\""@ + fuel + "\", provider=\""@ + name
        + "\", distance=\""@ + distance + "\" } "@ + tenths_text(raw_price)
}

/// The gauge lines of one station: petrol first, then diesel, each only
/// where the station sells it.
pub open spec fn station_lines(postcode: Seq<char>, s: Station) -> Seq<Seq<char>> {
    (if s.petrol {
        seq![fuel_line(postcode, "petrol"@, s.name@, s.distance@, s.petrol_price as nat)]
    } else {
        Seq::empty()
    }) + (if s.diesel {
        seq![fuel_line(postcode, "diesel"@, s.name@, s.distance@, s.diesel_price as nat)]
    } else {
        Seq::empty()
    })
}

/// The gauge lines of a station list, in list order.
pub open spec fn stations_lines(postcode: Seq<char>, ss: Seq<Station>) -> Seq<Seq<char>>
    decreases ss.len(),
{
    if ss.len() == 0 {
        Seq::empty()
    } else {
        stations_lines(postcode, ss.drop_last()) + station_lines(postcode, ss.last())
    }
}

/// The gauge lines of all entries, in entry order.
pub open spec fn entries_lines(es: Seq<PostcodeEntry>) -> Seq<Seq<char>>
    decreases es.len(),
{
    if es.len() == 0 {
        Seq::empty()
    } else {
        entries_lines(es.drop_last()) + stations_lines(es.last().postcode@, es.last().stations@)
    }
}

/// Every line of the exposition of `store`: the two header lines, then the data lines.
pub open spec fn metric_lines(store: PriceStore) -> Seq<Seq<char>> {
    seq![help_line(), type_line()] + entries_lines(store.entries())
}

/// Lines joined by newline characters, with no newline after the last.
pub open spec fn join_lines(ls: Seq<Seq<char>>) -> Seq<char>
    decreases ls.len(),
{
    if ls.len() == 0 {
        Seq::empty()
    } else if ls.len() == 1 {
        ls[0]
    } else {
        join_lines(ls.drop_last()) + seq!['\n'] + ls.last()
    }
}

/// The exposition body of `store`.
pub open spec fn exposition(store: PriceStore) -> Seq<char> {
    join_lines(metric_lines(store))
}

/// Number of gauge lines a station list contributes.
pub open spec fn stations_fuel_count(ss: Seq<Station>) -> nat
    decreases ss.len(),
{
    if ss.len() == 0 {
        0
    } else {
        stations_fuel_count(ss.drop_last()) + ss.last().fuel_count()
    }
}

/// Number of gauge lines all entries contribute.
pub open spec fn entries_fuel_count(es: Seq<PostcodeEntry>) -> nat
    decreases es.len(),
{
    if es.len() == 0 {
        0
    } else {
        entries_fuel_count(es.drop_last()) + stations_fuel_count(es.last().stations@)
    }
}

/// A station that sells neither fuel contributes no line.
pub proof fn lemma_no_fuel_no_lines(postcode: Seq<char>, s: Station)
    requires
        !s.petrol,
        !s.diesel,
    ensures
        station_lines(postcode, s) == Seq::<Seq<char>>::empty(),
{
    assert(station_lines(postcode, s) =~= Seq::<Seq<char>>::empty());
}

/// A station that sells both fuels contributes exactly two lines, petrol
/// then diesel, each valued at its upstream price divided by ten.
pub proof fn lemma_both_fuels_two_lines(postcode: Seq<char>, s: Station)
    requires
        s.petrol,
        s.diesel,
    ensures
        station_lines(postcode, s).len() == 2,
        station_lines(postcode, s)[0] == fuel_line(
            postcode,
            "petrol"@,
            s.name@,
            s.distance@,
            s.petrol_price as nat,
        ),
        station_lines(postcode, s)[1] == fuel_line(
            postcode,
            "diesel"@,
            s.name@,
            s.distance@,
            s.diesel_price as nat,
        ),
{
}

/// The exposition of an empty store is the two header lines alone.
pub proof fn lemma_empty_store(store: PriceStore)
    requires
        store.entries().len() == 0,
    ensures
        metric_lines(store) == seq![help_line(), type_line()],
        exposition(store) == help_line() + seq!['\n'] + type_line(),
{
    assert(metric_lines(store) =~= seq![help_line(), type_line()]);
    let both = seq![help_line(), type_line()];
    assert(both.drop_last() =~= seq![help_line()]);
    assert(join_lines(seq![help_line()]) == help_line());
    assert(join_lines(both) == join_lines(both.drop_last()) + seq!['\n'] + both.last());
}

/// The text every gauge line starts with.
pub open spec fn gauge_prefix() -> Seq<char> {
    "fuel_price{"@
}

/// Whether `l` starts with the gauge prefix.
pub open spec fn is_gauge_line(l: Seq<char>) -> bool {
    l.len() >= gauge_prefix().len() && l.subrange(0, gauge_prefix().len() as int) == gauge_prefix()
}

/// A station's name and distance hold no newline.
pub open spec fn station_labels_clean(s: Station) -> bool {
    has_no_newline(s.name@) && has_no_newline(s.distance@)
}

/// No postcode, station name or distance of `es` holds a newline.
pub open spec fn labels_clean(es: Seq<PostcodeEntry>) -> bool {
    forall|i: int|
        0 <= i < es.len() ==> has_no_newline(#[trigger] es[i].postcode@) && forall|j: int|
            0 <= j < es[i].stations@.len() ==> station_labels_clean(#[trigger] es[i].stations@[j])
}

proof fn lemma_concat_no_newline(a: Seq<char>, b: Seq<char>)
    requires
        has_no_newline(a),
        has_no_newline(b),
    ensures
        has_no_newline(a + b),
{
    assert forall|i: int| 0 <= i < (a + b).len() implies #[trigger] (a + b)[i] != '\n' by {
        if i >= a.len() {
            assert((a + b)[i] == b[i - a.len()]);
        }
    }
}

proof fn lemma_fuel_line_facts(
    postcode: Seq<char>,
    fuel: Seq<char>,
    name: Seq<char>,
    distance: Seq<char>,
    raw_price: nat,
)
    ensures
        is_gauge_line(fuel_line(postcode, fuel, name, distance, raw_price)),
        has_no_newline(postcode) && has_no_newline(fuel) && has_no_newline(name)
            && has_no_newline(distance) ==> has_no_newline(
            fuel_line(postcode, fuel, name, distance, raw_price),
        ),
{
    reveal_strlit("fuel_price{postcode=\"");
    reveal_strlit("fuel_price{");
    reveal_strlit("\", type=\"");
    reveal_strlit("\", provider=\"");
    reveal_strlit("\", distance=\"");
    reveal_strlit("\" } ");
    let l = fuel_line(postcode, fuel, name, distance, raw_price);
    assert(l.subrange(0, 11) =~= gauge_prefix());
    if has_no_newline(postcode) && has_no_newline(fuel) && has_no_newline(name) && has_no_newline(
        distance,
    ) {
        lemma_decimal_reads_back(raw_price / 10);
        let v = tenths_text(raw_price);
        assert(has_no_newline(v));
        let s0 = "fuel_price{postcode=\""@;
        let s1 = "\", type=\""@;
        let s2 = "\", provider=\""@;
        let s3 = "\", distance=\""@;
        let s4 = "\" } "@;
        assert(has_no_newline(s0));
        assert(has_no_newline(s1));
        assert(has_no_newline(s2));
        assert(has_no_newline(s3));
        assert(has_no_newline(s4));
        lemma_concat_no_newline(s0, postcode);
        lemma_concat_no_newline(s0 + postcode, s1);
        lemma_concat_no_newline(s0 + postcode + s1, fuel);
        lemma_concat_no_newline(s0 + postcode + s1 + fuel, s2);
        lemma_concat_no_newline(s0 + postcode + s1 + fuel + s2, name);
        lemma_concat_no_newline(s0 + postcode + s1 + fuel + s2 + name, s3);
        lemma_concat_no_newline(s0 + postcode + s1 + fuel + s2 + name + s3, distance);
        lemma_concat_no_newline(s0 + postcode + s1 + fuel + s2 + name + s3 + distance, s4);
        lemma_concat_no_newline(s0 + postcode + s1 + fuel + s2 + name + s3 + distance + s4, v);
    }
}

proof fn lemma_stations_lines(postcode: Seq<char>, ss: Seq<Station>)
    ensures
        stations_lines(postcode, ss).len() == stations_fuel_count(ss),
        forall|k: int|
            0 <= k < stations_lines(postcode, ss).len() ==> is_gauge_line(
                #[trigger] stations_lines(postcode, ss)[k],
            ),
        has_no_newline(postcode) && (forall|j: int|
            0 <= j < ss.len() ==> station_labels_clean(#[trigger] ss[j])) ==> forall|k: int|
            0 <= k < stations_lines(postcode, ss).len() ==> has_no_newline(
                #[trigger] stations_lines(postcode, ss)[k],
            ),
    decreases ss.len(),
{
    if ss.len() > 0 {
        let s = ss.last();
        reveal_strlit("petrol");
        reveal_strlit("diesel");
        assert(has_no_newline("petrol"@));
        assert(has_no_newline("diesel"@));
        lemma_stations_lines(postcode, ss.drop_last());
        lemma_fuel_line_facts(postcode, "petrol"@, s.name@, s.distance@, s.petrol_price as nat);
        lemma_fuel_line_facts(postcode, "diesel"@, s.name@, s.distance@, s.diesel_price as nat);
        if has_no_newline(postcode) && (forall|j: int|
            0 <= j < ss.len() ==> station_labels_clean(#[trigger] ss[j])) {
            assert(station_labels_clean(ss[ss.len() - 1]));
            assert(forall|j: int|
                0 <= j < ss.drop_last().len() ==> #[trigger] ss.drop_last()[j] == ss[j]);
        }
    }
}

proof fn lemma_entries_lines(es: Seq<PostcodeEntry>)
    ensures
        entries_lines(es).len() == entries_fuel_count(es),
        forall|k: int|
            0 <= k < entries_lines(es).len() ==> is_gauge_line(#[trigger] entries_lines(es)[k]),
        labels_clean(es) ==> forall|k: int|
            0 <= k < entries_lines(es).len() ==> has_no_newline(#[trigger] entries_lines(es)[k]),
    decreases es.len(),
{
    if es.len() > 0 {
        lemma_entries_lines(es.drop_last());
        let e = es.last();
        lemma_stations_lines(e.postcode@, e.stations@);
        if labels_clean(es) {
            assert(forall|i: int| 0 <= i < es.drop_last().len() ==> #[trigger] es.drop_last()[i] == es[i]);
            assert(labels_clean(es.drop_last()));
            assert(has_no_newline(es[es.len() - 1].postcode@));
            assert(forall|j: int|
                0 <= j < e.stations@.len() ==> station_labels_clean(#[trigger] e.stations@[j]));
        }
    }
}

/// The header lines come first and only there, every later line is a gauge
/// line, and there is one gauge line per fuel sold by each station of each
/// postcode.
pub proof fn lemma_line_count(store: PriceStore)
    ensures
        metric_lines(store).len() == 2 + entries_fuel_count(store.entries()),
        metric_lines(store)[0] == help_line(),
        metric_lines(store)[1] == type_line(),
        forall|k: int|
            2 <= k < metric_lines(store).len() ==> is_gauge_line(#[trigger] metric_lines(store)[k])
                && metric_lines(store)[k] != help_line() && metric_lines(store)[k] != type_line(),
{
    reveal_strlit("# HELP fuel_price Fuel price");
    reveal_strlit("# TYPE fuel_price gauge");
    reveal_strlit("fuel_price{");
    lemma_entries_lines(store.entries());
    let data = entries_lines(store.entries());
    assert forall|k: int| 2 <= k < metric_lines(store).len() implies is_gauge_line(
        #[trigger] metric_lines(store)[k],
    ) && metric_lines(store)[k] != help_line() && metric_lines(store)[k] != type_line() by {
        assert(metric_lines(store)[k] == data[k - 2]);
        assert(data[k - 2].subrange(0, 11)[0] == data[k - 2][0]);
        assert(data[k - 2][0] == 'f');
        assert(help_line()[0] == '#');
        assert(type_line()[0] == '#');
    }
}

proof fn lemma_entries_lines_concat(x: Seq<PostcodeEntry>, y: Seq<PostcodeEntry>)
    ensures
        entries_lines(x + y) == entries_lines(x) + entries_lines(y),
    decreases y.len(),
{
    if y.len() == 0 {
        assert(x + y =~= x);
        assert(entries_lines(x) + entries_lines(y) =~= entries_lines(x));
    } else {
        lemma_entries_lines_concat(x, y.drop_last());
        assert((x + y).drop_last() =~= x + y.drop_last());
        assert((x + y).last() == y.last());
        let e = y.last();
        assert(entries_lines(x) + entries_lines(y.drop_last()) + stations_lines(
            e.postcode@,
            e.stations@,
        ) =~= entries_lines(x) + entries_lines(y));
    }
}

/// Appending a station that sells both fuels to one postcode's list adds
/// exactly two lines to the exposition, its petrol line and its diesel line,
/// and leaves every other line as it was.
pub proof fn lemma_append_both_fuels(a: PriceStore, b: PriceStore, k: int, s: Station)
    requires
        0 <= k < a.entries().len(),
        s.petrol,
        s.diesel,
        b.entries().len() == a.entries().len(),
        forall|i: int| 0 <= i < a.entries().len() && i != k ==> #[trigger] b.entries()[i] == a.entries()[i],
        b.entries()[k].postcode@ == a.entries()[k].postcode@,
        b.entries()[k].stations@ == a.entries()[k].stations@.push(s),
    ensures
        metric_lines(b).len() == metric_lines(a).len() + 2,
        metric_lines(b).to_multiset() == metric_lines(a).to_multiset().insert(
            fuel_line(a.entries()[k].postcode@, "petrol"@, s.name@, s.distance@, s.petrol_price as nat),
        ).insert(
            fuel_line(a.entries()[k].postcode@, "diesel"@, s.name@, s.distance@, s.diesel_price as nat),
        ),
{
    let es = a.entries();
    let fs = b.entries();
    let pc = es[k].postcode@;
    let l1 = fuel_line(pc, "petrol"@, s.name@, s.distance@, s.petrol_price as nat);
    let l2 = fuel_line(pc, "diesel"@, s.name@, s.distance@, s.diesel_price as nat);
    let x = es.take(k);
    let y = es.skip(k + 1);
    assert(es =~= x + seq![es[k]] + y);
    assert(fs =~= x + seq![fs[k]] + y);
    lemma_entries_lines_concat(x + seq![es[k]], y);
    lemma_entries_lines_concat(x, seq![es[k]]);
    lemma_entries_lines_concat(x + seq![fs[k]], y);
    lemma_entries_lines_concat(x, seq![fs[k]]);
    assert(seq![es[k]].drop_last() =~= Seq::<PostcodeEntry>::empty());
    assert(seq![fs[k]].drop_last() =~= Seq::<PostcodeEntry>::empty());
    let sa = stations_lines(pc, es[k].stations@);
    assert(entries_lines(Seq::<PostcodeEntry>::empty()) == Seq::<Seq<char>>::empty());
    assert(entries_lines(seq![es[k]]) == entries_lines(seq![es[k]].drop_last()) + sa);
    assert(entries_lines(seq![fs[k]]) == entries_lines(seq![fs[k]].drop_last()) + stations_lines(
        pc,
        fs[k].stations@,
    ));
    assert(entries_lines(seq![es[k]]) =~= sa);
    assert(fs[k].stations@.drop_last() =~= es[k].stations@);
    assert(entries_lines(seq![fs[k]]) =~= sa + seq![l1, l2]);
    let ex = entries_lines(x);
    let ey = entries_lines(y);
    let h = seq![help_line(), type_line()];
    assert(metric_lines(a) =~= h + ex + sa + ey);
    assert(metric_lines(b) =~= h + ex + (sa + seq![l1, l2]) + ey);
    let pos: int = (2 + ex.len() + sa.len()) as int;
    let once = metric_lines(a).insert(pos, l1);
    assert(metric_lines(b) =~= once.insert(pos + 1, l2));
    to_multiset_insert(metric_lines(a), pos, l1);
    to_multiset_insert(once, pos + 1, l2);
}

/// The same change seen in the body: where no label holds a newline, the
/// body cut at its newlines gains exactly the petrol and diesel lines.
pub proof fn lemma_append_both_fuels_body(a: PriceStore, b: PriceStore, k: int, s: Station)
    requires
        0 <= k < a.entries().len(),
        s.petrol,
        s.diesel,
        b.entries().len() == a.entries().len(),
        forall|i: int| 0 <= i < a.entries().len() && i != k ==> #[trigger] b.entries()[i] == a.entries()[i],
        b.entries()[k].postcode@ == a.entries()[k].postcode@,
        b.entries()[k].stations@ == a.entries()[k].stations@.push(s),
        labels_clean(a.entries()),
        labels_clean(b.entries()),
    ensures
        split_on(exposition(b), '\n').len() == split_on(exposition(a), '\n').len() + 2,
        split_on(exposition(b), '\n').to_multiset() == split_on(exposition(a), '\n').to_multiset().insert(
            fuel_line(a.entries()[k].postcode@, "petrol"@, s.name@, s.distance@, s.petrol_price as nat),
        ).insert(
            fuel_line(a.entries()[k].postcode@, "diesel"@, s.name@, s.distance@, s.diesel_price as nat),
        ),
{
    lemma_append_both_fuels(a, b, k, s);
    lemma_body_lines(a);
    lemma_body_lines(b);
}

/// Lines without newlines, joined by newlines, split back into those lines.
pub proof fn lemma_split_join(ls: Seq<Seq<char>>)
    requires
        ls.len() >= 1,
        forall|i: int| 0 <= i < ls.len() ==> has_no_newline(#[trigger] ls[i]),
    ensures
        split_on(join_lines(ls), '\n') == ls,
    decreases ls.len(),
{
    if ls.len() == 1 {
        lemma_split_on_plain_suffix(Seq::empty(), ls[0], '\n');
        assert(Seq::<char>::empty() + ls[0] =~= ls[0]);
        assert(split_on(Seq::empty(), '\n').update(0, Seq::<char>::empty() + ls[0]) =~= ls);
    } else {
        let init = ls.drop_last();
        assert(forall|i: int| 0 <= i < init.len() ==> #[trigger] init[i] == ls[i]);
        lemma_split_join(init);
        assert(has_no_newline(ls[ls.len() - 1]));
        lemma_split_on_separated(join_lines(init), ls.last(), '\n');
        assert(init.push(ls.last()) =~= ls);
    }
}

/// Where no label holds a newline, the exposition body cut at its newlines
/// gives back the metric lines: the HELP line, the TYPE line, then one gauge
/// line per fuel sold by each station of each postcode, and no other header.
pub proof fn lemma_body_lines(store: PriceStore)
    requires
        labels_clean(store.entries()),
    ensures
        split_on(exposition(store), '\n') == metric_lines(store),
        split_on(exposition(store), '\n').len() == 2 + entries_fuel_count(store.entries()),
        split_on(exposition(store), '\n')[0] == help_line(),
        split_on(exposition(store), '\n')[1] == type_line(),
        forall|k: int|
            2 <= k < split_on(exposition(store), '\n').len() ==> is_gauge_line(
                #[trigger] split_on(exposition(store), '\n')[k],
            ),
{
    reveal_strlit("# HELP fuel_price Fuel price");
    reveal_strlit("# TYPE fuel_price gauge");
    lemma_entries_lines(store.entries());
    lemma_line_count(store);
    let ls = metric_lines(store);
    assert(has_no_newline(help_line()));
    assert(has_no_newline(type_line()));
    assert forall|i: int| 0 <= i < ls.len() implies has_no_newline(#[trigger] ls[i]) by {
        if i >= 2 {
            assert(ls[i] == entries_lines(store.entries())[i - 2]);
        }
    }
    lemma_split_join(ls);
}

/// The exposition is a function of the store's contents alone: any two
/// renderings of the same contents give the same body.
pub proof fn lemma_same_contents_same_body(a: PriceStore, b: PriceStore)
    requires
        a.entries() == b.entries(),
    ensures
        exposition(a) == exposition(b),
{
}

/// Builds one gauge line.
pub fn fuel_line_text(postcode: &str, fuel: &str, name: &str, distance: &str, raw_price: u64) -> (r:
    String)
    ensures
        r@ == fuel_line(postcode@, fuel@, name@, distance@, raw_price as nat),
{
    let mut s = String::from_str("fuel_price{postcode=\"");
    s.append(postcode);
    s.append("\", type=\"");
    s.append(fuel);
    s.append("\", provider=\"");
    s.append(name);
    s.append("\", distance=\"");
    s.append(distance);
    s.append("\" } ");
    let value = tenths_value_text(raw_price);
    s.append(value.as_str());
    s
}

fn push_line(lines: &mut Vec<String>, line: String)
    ensures
        texts(final(lines)@) == texts(old(lines)@).push(line@),
{
    lines.push(line);
    assert(texts(lines@) =~= texts(old(lines)@).push(line@));
}

/// Appends the gauge lines of station `s`, found for `postcode`.
pub fn push_station_lines(lines: &mut Vec<String>, postcode: &str, s: &Station)
    ensures
        texts(final(lines)@) == texts(old(lines)@) + station_lines(postcode@, *s),
{
    let ghost start = texts(lines@);
    if s.petrol {
        let line = fuel_line_text(postcode, "petrol", s.name.as_str(), s.distance.as_str(), s.petrol_price);
        push_line(lines, line);
    }
    let ghost mid = texts(lines@);
    if s.diesel {
        let line = fuel_line_text(postcode, "diesel", s.name.as_str(), s.distance.as_str(), s.diesel_price);
        push_line(lines, line);
    }
    assert(texts(lines@) =~= start + station_lines(postcode@, *s));
}

/// Joins lines with newline characters, with no newline after the last.
pub fn join_with_newlines(lines: &Vec<String>) -> (r: String)
    ensures
        r@ == join_lines(texts(lines@)),
{
    if lines.len() == 0 {
        return String::new();
    }
    let mut out = lines[0].clone();
    let mut i: usize = 1;
    proof {
        reveal_strlit("\n");
        assert(texts(lines@).take(1) =~= seq![lines@[0]@]);
    }
    while i < lines.len()
        invariant
            1 <= i <= lines@.len(),
            out@ == join_lines(texts(lines@).take(i as int)),
        decreases lines@.len() - i,
    {
        let ghost prev = texts(lines@).take(i as int);
        out.append("\n");
        out.append(lines[i].as_str());
        proof {
            reveal_strlit("\n");
            let next = texts(lines@).take(i + 1);
            assert(next.drop_last() =~= prev);
            assert(next.last() == lines@[i as int]@);
            assert("\n"@ =~= seq!['\n']);
        }
        i += 1;
    }
    assert(texts(lines@).take(i as int) =~= texts(lines@));
    out
}

impl PriceStore {
    /// Every line of the exposition: the HELP and TYPE header lines, then
    /// the gauge lines of each postcode's stations in turn.
    pub fn metric_lines(&self) -> (r: Vec<String>)
        ensures
            texts(r@) == metric_lines(*self),
    {
        let mut lines: Vec<String> = Vec::new();
        push_line(&mut lines, String::from_str("# HELP fuel_price Fuel price"));
        push_line(&mut lines, String::from_str("# TYPE fuel_price gauge"));
        assert(texts(lines@) =~= seq![help_line(), type_line()]);
        let n = self.len();
        let mut i: usize = 0;
        while i < n
            invariant
                n == self.entries().len(),
                i <= n,
                texts(lines@) == seq![help_line(), type_line()] + entries_lines(
                    self.entries().take(i as int),
                ),
            decreases n - i,
        {
            let entry = self.entry(i);
            let ghost before = texts(lines@);
            let m = entry.stations.len();
            let mut j: usize = 0;
            assert(entry.stations@.take(0) =~= Seq::<Station>::empty());
            while j < m
                invariant
                    m == entry.stations@.len(),
                    j <= m,
                    texts(lines@) == before + stations_lines(
                        entry.postcode@,
                        entry.stations@.take(j as int),
                    ),
                decreases m - j,
            {
                push_station_lines(&mut lines, entry.postcode.as_str(), &entry.stations[j]);
                proof {
                    let next = entry.stations@.take(j + 1);
                    assert(next.drop_last() =~= entry.stations@.take(j as int));
                }
                j += 1;
            }
            proof {
                assert(entry.stations@.take(j as int) =~= entry.stations@);
                let next = self.entries().take(i + 1);
                assert(next.drop_last() =~= self.entries().take(i as int));
                assert(texts(lines@) =~= seq![help_line(), type_line()] + entries_lines(next));
            }
            i += 1;
        }
        assert(self.entries().take(n as int) =~= self.entries());
        lines
    }

    /// The exposition body: every metric line joined by newlines.
    pub fn render(&self) -> (r: String)
        ensures
            r@ == exposition(*self),
    {
        let lines = self.metric_lines();
        join_with_newlines(&lines)
    }
}

} // verus!
