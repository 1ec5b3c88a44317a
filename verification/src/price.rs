//! Price Data
//!
//! Historic bitcoin price data

use crate::text::{split_by, split_pieces, string_from_chars};
use crate::timemap::{lower_bound, sorted_by_time, upper_bound, TimeMap};
use crate::units::decimal::decimal_parse;
use crate::units::price::{strip_price_noise, PriceParseError};
use crate::units::utc_time::{floor_div, std_parse_i64, TimeError, MAX_TIMESTAMP, MIN_TIMESTAMP};
use crate::units::{Price, UtcTime};
use vstd::prelude::*;

verus! {

/// A bitcoin price at a time
#[derive(Copy, Clone, PartialEq, Eq, Debug)]
pub struct BitcoinPrice {
    /// Timestamp that the price was recorded at
    pub timestamp: UtcTime,
    /// Price in USD
    pub btc_price: Price,
}

/// Errors reading a price record
#[derive(Debug)]
pub enum PriceError {
    /// The line had no timestamp
    NoTimestamp,
    /// The timestamp did not parse
    Time(TimeError),
    /// The line had no price
    NoPrice,
    /// The price did not parse
    Price(PriceParseError),
    /// The line had no volume
    NoVolume,
    /// The line had more than three fields
    ExtraData,
}

/// Whether a price line parses: a UNIX timestamp in range, a price and a
/// volume (which is not read), and nothing more
pub open spec fn price_line_ok(s: Seq<char>) -> bool {
    let f = split_pieces(s, ',');
    &&& std_parse_i64(f[0]) matches Some(v) && MIN_TIMESTAMP <= v <= MAX_TIMESTAMP
    &&& f.len() >= 2 && decimal_parse(strip_price_noise(f[1])) is Some
    &&& f.len() == 3
}

impl BitcoinPrice {
    /// A price at the current time; `None` where the system clock cannot
    /// be read as a time (see [UtcTime::now])
    pub fn from_current(num: Price) -> (p: Option<BitcoinPrice>)
        ensures
            p matches Some(q) ==> q.btc_price == num && q.timestamp.spec_secs() >= 0,
    {
        match UtcTime::now() {
            Some(t) => Some(BitcoinPrice { timestamp: t, btc_price: num }),
            None => None,
        }
    }

    /// Parses a price from a CSV line "timestamp,price,volume"
    pub fn from_csv(data: &str) -> (r: Result<BitcoinPrice, PriceError>)
        ensures
            r is Ok <==> price_line_ok(data@),
            r matches Ok(p) ==> {
                let f = split_pieces(data@, ',');
                &&& std_parse_i64(f[0]) == Some(p.timestamp.spec_secs())
                &&& p.timestamp.spec_nanos() == 0
                &&& decimal_parse(strip_price_noise(f[1])) == Some((p.btc_price.mant(), p.btc_price.scl()))
            },
            r matches Err(PriceError::NoPrice) ==> split_pieces(data@, ',').len() < 2,
            r matches Err(PriceError::NoVolume) ==> split_pieces(data@, ',').len() == 2,
            r matches Err(PriceError::ExtraData) ==> split_pieces(data@, ',').len() > 3,
    {
        let fields = split_by(data, ',');
        let ghost f = split_pieces(data@, ',');
        proof {
            crate::text::lemma_split_pieces_nonempty(data@, ',');
            assert(fields@.map_values(|p: Vec<char>| p@).len() == fields@.len());
        }
        if fields.len() < 1 {
            return Err(PriceError::NoTimestamp);
        }
        let date_s = string_from_chars(&fields[0]);
        proof {
            assert(fields@.map_values(|p: Vec<char>| p@)[0] == fields@[0]@);
        }
        let date = match UtcTime::from_unix_str(date_s.as_str()) {
            Ok(d) => d,
            Err(e) => return Err(PriceError::Time(e)),
        };
        if fields.len() < 2 {
            return Err(PriceError::NoPrice);
        }
        let price_s = string_from_chars(&fields[1]);
        proof {
            assert(fields@.map_values(|p: Vec<char>| p@)[1] == fields@[1]@);
        }
        let price = match Price::from_str(price_s.as_str()) {
            Ok(p) => p,
            Err(e) => return Err(PriceError::Price(e)),
        };
        if fields.len() < 3 {
            return Err(PriceError::NoVolume);
        }
        if fields.len() > 3 {
            return Err(PriceError::ExtraData);
        }
        Ok(BitcoinPrice { timestamp: date, btc_price: price })
    }
}

/// The half hour a price falls in, counted from the epoch
pub open spec fn bucket(t: UtcTime) -> int {
    t.spec_secs() / 1800
}

/// The entries of a time map after inserting the given prices in order,
/// each at its timestamp
pub open spec fn insert_prices(m: Seq<(UtcTime, BitcoinPrice)>, ps: Seq<BitcoinPrice>) -> Seq<(UtcTime, BitcoinPrice)>
    decreases ps.len(),
{
    if ps.len() == 0 {
        m
    } else {
        let m2 = m.insert(upper_bound(m, ps[0].timestamp@), (ps[0].timestamp, ps[0]));
        insert_prices(m2, ps.drop_first())
    }
}

/// Historic price data
pub struct Historic {
    data: TimeMap<BitcoinPrice>,
}

impl Historic {
    /// The recorded prices, in time order
    pub closed spec fn spec_data(self) -> Seq<(UtcTime, BitcoinPrice)> {
        self.data@
    }

    /// An empty history
    pub fn new() -> (h: Historic)
        ensures
            h.spec_data().len() == 0,
    {
        Historic { data: TimeMap::new() }
    }

    /// Records a price
    pub fn record(&mut self, price: BitcoinPrice)
        ensures
            final(self).spec_data() == old(self).spec_data().insert(
                upper_bound(old(self).spec_data(), price.timestamp@),
                (price.timestamp, price),
            ),
    {
        self.data.insert(price.timestamp, price);
    }

    /// Returns the most recent price strictly before a given time, if any
    pub fn price_before(&self, time: UtcTime) -> (r: Option<BitcoinPrice>)
        ensures
            lower_bound(self.spec_data(), time@) == 0 ==> r is None,
            lower_bound(self.spec_data(), time@) > 0 ==> r == Some(self.spec_data()[lower_bound(self.spec_data(), time@) - 1].1),
    {
        match self.data.most_recent(time) {
            Some((_, p)) => Some(*p),
            None => None,
        }
    }

    /// Returns the most recent price as of a given time (recorded at or
    /// before it); there must be one
    pub fn price_at(&self, time: UtcTime) -> (p: BitcoinPrice)
        requires
            upper_bound(self.spec_data(), time@) > 0,
        ensures
            p == self.spec_data()[upper_bound(self.spec_data(), time@) - 1].1,
    {
        match self.data.latest_as_of(time) {
            Some((_, p)) => *p,
            None => {
                proof { assert(false); }
                BitcoinPrice { timestamp: time, btc_price: Price::zero() }
            },
        }
    }

    /// Number of price entries recorded
    pub fn len(&self) -> (n: usize)
        ensures
            n == self.spec_data().len(),
    {
        self.data.len()
    }

    /// Whether the history is empty
    pub fn is_empty(&self) -> (b: bool)
        ensures
            b == (self.spec_data().len() == 0),
    {
        self.data.is_empty()
    }

    /// The recorded prices, in time order
    pub fn entries(&self) -> (r: &Vec<(UtcTime, BitcoinPrice)>)
        ensures
            r@ == self.spec_data(),
            sorted_by_time(self.spec_data()),
    {
        self.data.entries()
    }
}

/// Whether `p` is the price read from a price line
pub open spec fn read_from(p: BitcoinPrice, line: Seq<char>) -> bool {
    let f = split_pieces(line, ',');
    &&& std_parse_i64(f[0]) == Some(p.timestamp.spec_secs())
    &&& p.timestamp.spec_nanos() == 0
    &&& decimal_parse(strip_price_noise(f[1])) == Some((p.btc_price.mant(), p.btc_price.scl()))
}

/// Inserting prices one by one
pub proof fn lemma_insert_prices_push(m: Seq<(UtcTime, BitcoinPrice)>, ps: Seq<BitcoinPrice>, p: BitcoinPrice)
    ensures
        insert_prices(m, ps.push(p)) == ({
            let m2 = insert_prices(m, ps);
            m2.insert(upper_bound(m2, p.timestamp@), (p.timestamp, p))
        }),
    decreases ps.len(),
{
    if ps.len() == 0 {
        assert(ps.push(p).drop_first() =~= Seq::<BitcoinPrice>::empty());
        assert(ps.push(p)[0] == p);
        reveal_with_fuel(insert_prices, 2);
    } else {
        let m2 = m.insert(upper_bound(m, ps[0].timestamp@), (ps[0].timestamp, ps[0]));
        assert(ps.push(p)[0] == ps[0]);
        assert(ps.push(p).drop_first() =~= ps.drop_first().push(p));
        lemma_insert_prices_push(m2, ps.drop_first(), p);
    }
}

/// The records of a prefix that are the most recent of their half hour
/// there: those followed, within the prefix, by a record of another half
/// hour (the last record's half hour is still open)
pub open spec fn kept_prefix(ps: Seq<BitcoinPrice>, n: int) -> Seq<BitcoinPrice>
    decreases n,
{
    if n <= 1 {
        Seq::empty()
    } else {
        kept_prefix(ps, n - 1) + if bucket(ps[n - 2].timestamp) != bucket(ps[n - 1].timestamp) { seq![ps[n - 2]] } else { Seq::empty() }
    }
}

/// The number of lines read before stopping
pub open spec fn lines_read(r: Result<(), (usize, PriceError)>, len: int) -> int {
    match r {
        Ok(_) => len,
        Err(e) => e.0 as int,
    }
}

/// The outcome of reading price lines: `ps` are the prices read; when all
/// lines were read, the most recent record of each half hour was recorded,
/// and the last record once more; otherwise the most recent records of the
/// half hours closed before the bad line
pub open spec fn read_csv_outcome(
    ps: Seq<BitcoinPrice>,
    lines: Seq<String>,
    before: Seq<(UtcTime, BitcoinPrice)>,
    after: Seq<(UtcTime, BitcoinPrice)>,
    ok: bool,
    n: int,
) -> bool {
    &&& forall|i: int| 0 <= i < ps.len() ==> read_from(ps[i], lines[i]@)
    &&& ps.len() == n <= lines.len()
    &&& ok ==> ps.len() == lines.len() && after == insert_prices(
        before,
        kept_prefix(ps, ps.len() as int) + if ps.len() > 0 { seq![ps.last(), ps.last()] } else { Seq::empty() },
    )
    &&& !ok ==> after == insert_prices(before, kept_prefix(ps, ps.len() as int))
}

impl Historic {
    /// Reads price records from the lines of a CSV file, keeping only the
    /// most recent record of each half hour, and also the most recent
    /// record once more, since the user likely prices options in real time.
    /// On a bad line, returns its index and the error, with the records of
    /// the half hours closed before it kept.
    pub fn read_csv_lines(&mut self, lines: &Vec<String>) -> (r: Result<(), (usize, PriceError)>)
        ensures
            r is Ok <==> forall|i: int| 0 <= i < lines@.len() ==> price_line_ok(#[trigger] lines@[i]@),
            r matches Err((k, _)) ==> k < lines@.len() && !price_line_ok(lines@[k as int]@)
                && forall|i: int| 0 <= i < k ==> price_line_ok(#[trigger] lines@[i]@),
            exists|ps: Seq<BitcoinPrice>| #[trigger] read_csv_outcome(ps, lines@, old(self).spec_data(), final(self).spec_data(), r is Ok,
                lines_read(r, lines@.len() as int)),
    {
        let ghost mut ps: Seq<BitcoinPrice> = Seq::empty();
        let mut last_bucket: i64 = 0;
        let mut last_price: Option<BitcoinPrice> = None;
        let mut i: usize = 0;
        while i < lines.len()
            invariant
                i <= lines@.len(),
                ps.len() == i,
                forall|j: int| 0 <= j < i ==> read_from(ps[j], lines@[j]@),
                forall|j: int| 0 <= j < i ==> price_line_ok(#[trigger] lines@[j]@),
                self.spec_data() == insert_prices(old(self).spec_data(), kept_prefix(ps, i as int)),
                i == 0 ==> last_price is None,
                i > 0 ==> last_bucket == bucket(ps[i - 1].timestamp) && last_price == Some(ps[i - 1]),
            decreases lines@.len() - i,
        {
            let price = match BitcoinPrice::from_csv(lines[i].as_str()) {
                Ok(p) => p,
                Err(e) => {
                    let r: Result<(), (usize, PriceError)> = Err((i, e));
                    assert(read_csv_outcome(ps, lines@, old(self).spec_data(), self.spec_data(), r is Ok, lines_read(r, lines@.len() as int)));
                    return r;
                },
            };
            let b = floor_div(price.timestamp.timestamp(), 1800);
            let ghost old_ps = ps;
            proof {
                ps = ps.push(price);
                assert(forall|j: int| 0 <= j < i ==> ps[j] == old_ps[j]);
                assert(kept_prefix(old_ps, i as int) == kept_prefix(ps, i as int)) by {
                    lemma_kept_prefix_extend(old_ps, price, i as int);
                }
            }
            match last_price {
                Some(prev) => {
                    if last_bucket != b {
                        self.record(prev);
                        proof {
                            lemma_insert_prices_push(old(self).spec_data(), kept_prefix(ps, i as int), prev);
                            assert(kept_prefix(ps, i + 1) =~= kept_prefix(ps, i as int).push(prev));
                        }
                    } else {
                        proof {
                            assert(kept_prefix(ps, i + 1) =~= kept_prefix(ps, i as int));
                        }
                    }
                },
                None => {
                    proof {
                        assert(kept_prefix(ps, 1) =~= kept_prefix(ps, 0));
                    }
                },
            }
            last_bucket = b;
            last_price = Some(price);
            i = i + 1;
        }
        match last_price {
            Some(p) => {
                self.record(p);
                proof {
                    lemma_insert_prices_push(old(self).spec_data(), kept_prefix(ps, ps.len() as int), p);
                }
                self.record(p);
                proof {
                    lemma_insert_prices_push(old(self).spec_data(), kept_prefix(ps, ps.len() as int).push(p), p);
                    assert(kept_prefix(ps, ps.len() as int) + seq![ps.last(), ps.last()] =~= kept_prefix(ps, ps.len() as int).push(p).push(p));
                }
            },
            None => {
                proof {
                    assert(kept_prefix(ps, 0) + Seq::<BitcoinPrice>::empty() =~= kept_prefix(ps, 0));
                }
            },
        }
        let r: Result<(), (usize, PriceError)> = Ok(());
        assert(read_csv_outcome(ps, lines@, old(self).spec_data(), self.spec_data(), r is Ok, lines_read(r, lines@.len() as int)));
        r
    }
}

/// The kept records of a prefix do not depend on the records after it
pub proof fn lemma_kept_prefix_extend(ps: Seq<BitcoinPrice>, p: BitcoinPrice, n: int)
    requires
        0 <= n <= ps.len(),
    ensures
        kept_prefix(ps, n) == kept_prefix(ps.push(p), n),
    decreases n,
{
    if n > 0 {
        lemma_kept_prefix_extend(ps, p, n - 1);
    }
}

/// The year-month key of a price, `100 * year + month`
pub open spec fn year_month(p: BitcoinPrice) -> int {
    100 * p.timestamp.spec_date().0 + p.timestamp.spec_date().1
}

/// The runs of consecutive prices with the same year-month key, in order
pub open spec fn month_runs(ps: Seq<BitcoinPrice>) -> Seq<(int, Seq<BitcoinPrice>)>
    decreases ps.len(),
{
    if ps.len() == 0 {
        Seq::empty()
    } else {
        let r = month_runs(ps.drop_last());
        let k = year_month(ps.last());
        if r.len() > 0 && r.last().0 == k {
            r.update(r.len() - 1, (k, r.last().1.push(ps.last())))
        } else {
            r.push((k, seq![ps.last()]))
        }
    }
}

/// The monthly files written out: the runs with a positive key
pub open spec fn month_files(ps: Seq<BitcoinPrice>) -> Seq<(int, Seq<BitcoinPrice>)> {
    month_runs(ps).filter(|g: (int, Seq<BitcoinPrice>)| g.0 > 0)
}

/// The prices of the recorded entries
pub open spec fn prices_of(es: Seq<(UtcTime, BitcoinPrice)>) -> Seq<BitcoinPrice> {
    es.map_values(|e: (UtcTime, BitcoinPrice)| e.1)
}

/// The view of a list of groups
pub open spec fn groups_view(gs: Seq<(i32, Vec<BitcoinPrice>)>) -> Seq<(int, Seq<BitcoinPrice>)> {
    gs.map_values(|g: (i32, Vec<BitcoinPrice>)| (g.0 as int, g.1@))
}

impl Historic {
    /// The records grouped into monthly files: each run of consecutive
    /// records of the same month (key `100 * year + month`) makes one file,
    /// except runs with a key that is not positive
    pub fn month_groups(&self) -> (r: Vec<(i32, Vec<BitcoinPrice>)>)
        requires
            forall|i: int| 0 <= i < self.spec_data().len() ==> i32::MIN <= #[trigger] year_month(self.spec_data()[i].1) <= i32::MAX,
        ensures
            groups_view(r@) == month_files(prices_of(self.spec_data())),
    {
        let es = self.data.entries();
        let ghost ps = prices_of(es@);
        let mut runs: Vec<(i32, Vec<BitcoinPrice>)> = Vec::new();
        let mut i: usize = 0;
        assert(ps.take(0) =~= Seq::<BitcoinPrice>::empty());
        assert(groups_view(runs@) =~= Seq::<(int, Seq<BitcoinPrice>)>::empty());
        while i < es.len()
            invariant
                i <= es@.len(),
                ps == prices_of(es@),
                es@ == self.spec_data(),
                forall|j: int| 0 <= j < es@.len() ==> i32::MIN <= #[trigger] year_month(es@[j].1) <= i32::MAX,
                groups_view(runs@) == month_runs(ps.take(i as int)),
            decreases es@.len() - i,
        {
            let p = es[i].1;
            proof {
                assert(ps[i as int] == p);
                assert(year_month(es@[i as int].1) == year_month(p));
            }
            let k64: i64 = 100 * (p.timestamp.year() as i64) + p.timestamp.month() as i64;
            let k: i32 = k64 as i32;
            let ghost before = groups_view(runs@);
            let n = runs.len();
            proof {
                assert(ps.take(i + 1).drop_last() =~= ps.take(i as int));
                assert(ps.take(i + 1).last() == p);
            }
            if n > 0 && runs[n - 1].0 == k {
                let (key, mut group) = runs.pop().unwrap();
                group.push(p);
                runs.push((key, group));
                proof {
                    assert(groups_view(runs@) =~= before.update(before.len() - 1, (k as int, before.last().1.push(p))));
                }
            } else {
                let mut group: Vec<BitcoinPrice> = Vec::new();
                group.push(p);
                runs.push((k, group));
                proof {
                    assert(groups_view(runs@) =~= before.push((k as int, seq![p])));
                }
            }
            i = i + 1;
        }
        assert(ps.take(es@.len() as int) =~= ps);
        let mut out: Vec<(i32, Vec<BitcoinPrice>)> = Vec::new();
        let ghost all = groups_view(runs@);
        let mut runs = runs;
        let mut kept: Vec<(i32, Vec<BitcoinPrice>)> = Vec::new();
        let mut j: usize = 0;
        let total = runs.len();
        // Take the runs from the front, keeping those with a positive key
        while runs.len() > 0
            invariant
                j + runs@.len() == total,
                total == all.len(),
                groups_view(runs@) == all.skip(j as int),
                groups_view(kept@) == all.take(j as int).filter(|g: (int, Seq<BitcoinPrice>)| g.0 > 0),
            decreases runs@.len(),
        {
            let ghost before_runs = groups_view(runs@);
            let ghost before_kept = groups_view(kept@);
            let g = runs.remove(0);
            proof {
                assert(before_runs[0] == (g.0 as int, g.1@));
                assert(all.skip(j as int)[0] == all[j as int]);
                assert(groups_view(runs@) =~= before_runs.drop_first());
                assert(all.skip(j + 1) =~= all.skip(j as int).drop_first());
                assert(all.take(j + 1) =~= all.take(j as int).push(all[j as int]));
                all.take(j as int).lemma_filter_push(all[j as int], |g: (int, Seq<BitcoinPrice>)| g.0 > 0);
            }
            if g.0 > 0 {
                kept.push(g);
                proof {
                    assert(groups_view(kept@) =~= before_kept.push(all[j as int]));
                }
            } else {
                proof {
                    assert(groups_view(kept@) =~= before_kept);
                }
            }
            j = j + 1;
        }
        assert(all.take(total as int) =~= all);
        kept
    }
}

} // verus!
