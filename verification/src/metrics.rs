//! Metrics in the InfluxDB line format, as sent to a VictoriaMetrics
//! database.
use vstd::prelude::*;
use vstd::string::*;

verus! {

/// The decimal digit of a number below 10.
pub open spec fn digit_char(d: nat) -> char {
    ('0' as int + d) as char
}

/// The decimal text of a number, without sign or leading zeros.
pub open spec fn decimal(v: nat) -> Seq<char>
    decreases v,
{
    if v < 10 {
        seq![digit_char(v)]
    } else {
        decimal(v / 10).push(digit_char(v % 10))
    }
}

/// The text of a single decimal digit.
fn digit_text(d: u64) -> (text: &'static str)
    requires
        d < 10,
    ensures
        text@ == seq![digit_char(d as nat)],
{
    proof {
        reveal_strlit("0");
        reveal_strlit("1");
        reveal_strlit("2");
        reveal_strlit("3");
        reveal_strlit("4");
        reveal_strlit("5");
        reveal_strlit("6");
        reveal_strlit("7");
        reveal_strlit("8");
        reveal_strlit("9");
    }
    match d {
        0 => "0",
        1 => "1",
        2 => "2",
        3 => "3",
        4 => "4",
        5 => "5",
        6 => "6",
        7 => "7",
        8 => "8",
        _ => "9",
    }
}

/// Formats an integer in decimal.
fn decimal_text(value: u64) -> (text: String)
    ensures
        text@ == decimal(value as nat),
    decreases value,
{
    if value < 10 {
        digit_text(value).to_owned()
    } else {
        let mut text = decimal_text(value / 10);
        text.append(digit_text(value % 10));
        text
    }
}

/// A metric to store in the metrics database.
pub struct Metric<'a> {
    pub name: &'a str,
    pub tags: Vec<(&'a str, String)>,
    pub fields: Vec<(&'a str, String)>,
}

/// The `name=value` pairs of a metric, joined by commas.
pub open spec fn pairs_text(pairs: Seq<(&str, String)>) -> Seq<char>
    decreases pairs.len(),
{
    if pairs.len() == 0 {
        Seq::empty()
    } else {
        let last = pairs.last().0@ + "="@ + pairs.last().1@;
        if pairs.len() == 1 {
            last
        } else {
            pairs_text(pairs.drop_last()) + ","@ + last
        }
    }
}

/// The line a metric is sent as: its name, then a comma and its tags
/// (when it has any), then a comma and its fields (when it has any).
pub open spec fn metric_line(name: Seq<char>, tags: Seq<(&str, String)>, fields: Seq<(&str, String)>) -> Seq<char> {
    name + (if tags.len() == 0 {
        Seq::empty()
    } else {
        ","@ + pairs_text(tags)
    }) + (if fields.len() == 0 {
        Seq::empty()
    } else {
        ","@ + pairs_text(fields)
    })
}

/// Appends the pairs to a line.
fn append_pairs(line: &mut String, pairs: &Vec<(&str, String)>)
    ensures
        final(line)@ == old(line)@ + pairs_text(pairs@),
{
    let ghost start = line@;
    let mut i: usize = 0;
    while i < pairs.len()
        invariant
            i <= pairs@.len(),
            line@ == start + pairs_text(pairs@.take(i as int)),
        decreases pairs@.len() - i,
    {
        let ghost before = line@;
        if i > 0 {
            line.append(",");
        }
        line.append(pairs[i].0);
        line.append("=");
        line.append(pairs[i].1.as_str());
        proof {
            let p = pairs@.take(i + 1);
            assert(p.drop_last() =~= pairs@.take(i as int));
            assert(p.last() == pairs@[i as int]);
            if i == 0 {
                assert(pairs@.take(0) =~= Seq::<(&str, String)>::empty());
                assert(line@ =~= start + pairs_text(p));
            } else {
                assert(line@ =~= start + pairs_text(p));
            }
        }
        i = i + 1;
    }
    assert(pairs@.take(i as int) =~= pairs@);
}

impl<'a> Metric<'a> {
    /// A metric named `name`, with the tags and fields that `func` adds:
    /// `func` is called once on the metric without tags and fields, and the
    /// result is the metric as `func` leaves it.
    pub fn with<F: FnOnce(&mut Self)>(name: &'a str, func: F) -> (metric: Self)
        requires
            forall|m: &mut Self| call_requires(func, (m,)),
        ensures
            exists|m: &mut Self|
                m.name == name && m.tags@.len() == 0 && m.fields@.len() == 0 && *final(m) == metric
                    && call_ensures(func, (m,), ()),
    {
        let mut metric = Self::new(name);
        func(&mut metric);
        metric
    }

    pub fn new(name: &'a str) -> (metric: Self)
        ensures
            metric.name == name,
            metric.tags@.len() == 0,
            metric.fields@.len() == 0,
    {
        Metric { name, tags: Vec::new(), fields: Vec::new() }
    }

    /// Adds a field holding an integer.
    pub fn field(&mut self, name: &'a str, value: u64)
        ensures
            final(self).name == old(self).name,
            final(self).tags@ == old(self).tags@,
            final(self).fields@.len() == old(self).fields@.len() + 1,
            final(self).fields@.drop_last() == old(self).fields@,
            final(self).fields@.last().0 == name,
            final(self).fields@.last().1@ == decimal(value as nat),
    {
        self.fields.push((name, decimal_text(value)));
    }

    /// Adds a tag.
    pub fn tag(&mut self, name: &'a str, value: &str)
        ensures
            final(self).name == old(self).name,
            final(self).fields@ == old(self).fields@,
            final(self).tags@.len() == old(self).tags@.len() + 1,
            final(self).tags@.drop_last() == old(self).tags@,
            final(self).tags@.last().0 == name,
            final(self).tags@.last().1@ == value@,
    {
        self.tags.push((name, value.to_owned()));
    }

    /// The line the metric is sent as (see `metric_line`).
    pub fn to_string(&self) -> (line: String)
        ensures
            line@ == metric_line(self.name@, self.tags@, self.fields@),
    {
        let mut line = self.name.to_owned();
        if self.tags.len() > 0 {
            line.append(",");
            append_pairs(&mut line, &self.tags);
        }
        if self.fields.len() > 0 {
            line.append(",");
            append_pairs(&mut line, &self.fields);
        }
        line
    }
}

} // verus!
