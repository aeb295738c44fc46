//! The grammar of the global-option text: `name : type : "description"`
//! entries joined by commas. Only a quoted description is protected from the
//! `:` and `,` delimiters, so a description may hold both.
use vstd::prelude::*;
use crate::text::{copy_all, trim, trim_chars, unquote, unquote_chars, white_space};

verus! {

/// The scanner's state as values: the closed fields, whether a quoted
/// description is open, and the characters of the field being read.
pub type ScanState = (Seq<Seq<char>>, bool, Seq<char>);

/// A field drops the comma that separated it from the previous entry, and
/// the whitespace round it.
pub open spec fn strip_comma(s: Seq<char>) -> Seq<char> {
    if s.len() > 0 && s[0] == ',' {
        s.drop_first()
    } else {
        s
    }
}

pub open spec fn field_of(buf: Seq<char>) -> Seq<char> {
    trim(strip_comma(trim(buf)))
}

pub open spec fn initial_state() -> ScanState {
    (Seq::empty(), false, Seq::empty())
}

/// One character of input. Outside a description a `:` closes the field. A
/// `"` opens a description, and the next `"` closes it, quotes included.
pub open spec fn step(st: ScanState, c: char) -> ScanState {
    if c == ':' && !st.1 {
        (st.0.push(field_of(st.2)), st.1, Seq::empty())
    } else if c == '"' {
        if st.1 {
            (st.0.push(field_of(st.2.push(c))), false, Seq::empty())
        } else {
            (st.0, true, st.2.push(c))
        }
    } else {
        (st.0, st.1, st.2.push(c))
    }
}

pub open spec fn scan_from(st: ScanState, s: Seq<char>) -> ScanState
    decreases s.len(),
{
    if s.len() == 0 {
        st
    } else {
        step(scan_from(st, s.drop_last()), s.last())
    }
}

pub open spec fn scan(s: Seq<char>) -> ScanState {
    scan_from(initial_state(), s)
}

/// Consecutive fields taken three at a time; a remainder of one or two is dropped.
pub open spec fn triples(f: Seq<Seq<char>>) -> Seq<(Seq<char>, Seq<char>, Seq<char>)>
    decreases f.len(),
{
    if f.len() < 3 {
        Seq::empty()
    } else {
        seq![(f[0], f[1], f[2])] + triples(f.subrange(3, f.len() as int))
    }
}

/// What the option text says: one `(name, type, description)` per entry, with
/// the quotes taken out of name and description.
pub open spec fn option_entries(s: Seq<char>) -> Seq<(Seq<char>, Seq<char>, Seq<char>)> {
    triples(scan(s).0).map_values(
        |t: (Seq<char>, Seq<char>, Seq<char>)| (unquote(t.0), t.1, unquote(t.2)),
    )
}

/// One entry of the option text.
pub struct OptionText {
    pub name: Vec<char>,
    pub ty: Vec<char>,
    pub about: Vec<char>,
}

impl View for OptionText {
    type V = (Seq<char>, Seq<char>, Seq<char>);

    open spec fn view(&self) -> Self::V {
        (self.name@, self.ty@, self.about@)
    }
}

/// The scanner over the option text.
pub struct Args {
    pub args: Vec<Vec<char>>,
    pub last_field: bool,
    pub string: Vec<char>,
}

impl Args {
    pub open spec fn fields(&self) -> Seq<Seq<char>> {
        self.args@.map_values(|a: Vec<char>| a@)
    }

    pub open spec fn state(&self) -> ScanState {
        (self.fields(), self.last_field, self.string@)
    }

    pub fn new() -> (r: Args)
        ensures
            r.state() == initial_state(),
    {
        let r = Args { args: Vec::new(), last_field: false, string: Vec::new() };
        assert(r.fields() =~= Seq::<Seq<char>>::empty());
        r
    }

    /// Closes the field being read: it is trimmed, loses a leading comma and
    /// is trimmed again.
    pub fn push(&mut self)
        ensures
            final(self).fields() == old(self).fields().push(field_of(old(self).string@)),
            final(self).string@ == strip_comma(trim(old(self).string@)),
            final(self).last_field == old(self).last_field,
    {
        self.string = trim_chars(&self.string);
        if self.string.len() > 0 && self.string[0] == ',' {
            self.string.remove(0);
            assert(self.string@ =~= strip_comma(trim(old(self).string@)));
        }
        let field = trim_chars(&self.string);
        self.args.push(field);
        assert(self.fields() =~= old(self).fields().push(field_of(old(self).string@)));
    }

    /// Reads one character.
    pub fn feed(&mut self, c: char)
        ensures
            final(self).state() == step(old(self).state(), c),
    {
        if c == ':' && !self.last_field {
            self.push();
            self.string = Vec::new();
            return;
        }
        self.string.push(c);
        if c == '"' {
            if self.last_field {
                self.push();
                self.string = Vec::new();
            }
            self.last_field = !self.last_field;
        }
    }

    /// The closed fields, three at a time.
    pub fn collect(self) -> (r: Vec<(Vec<char>, Vec<char>, Vec<char>)>)
        ensures
            r@.len() == triples(self.fields()).len(),
            forall|i: int|
                0 <= i < r@.len() ==> (r@[i].0@, r@[i].1@, r@[i].2@) == #[trigger] triples(
                    self.fields(),
                )[i],
    {
        let ghost f = self.fields();
        let args = self.args;
        let mut r: Vec<(Vec<char>, Vec<char>, Vec<char>)> = Vec::new();
        let mut i: usize = 0;
        let n = args.len();
        assert(f.subrange(0, n as int) =~= f);
        assert(Seq::new(r@.len(), |k: int| (r@[k].0@, r@[k].1@, r@[k].2@)) + triples(f) =~= triples(f));
        while n - i >= 3
            invariant
                n == args@.len(),
                i <= n,
                f == args@.map_values(|a: Vec<char>| a@),
                triples(f) == Seq::new(r@.len(), |k: int| (r@[k].0@, r@[k].1@, r@[k].2@)) + triples(
                    f.subrange(i as int, n as int),
                ),
            decreases n - i,
        {
            let ghost rest = f.subrange(i as int, n as int);
            assert(rest.subrange(3, rest.len() as int) =~= f.subrange(i + 3, n as int));
            let a = copy_all(&args[i]);
            let b = copy_all(&args[i + 1]);
            let c = copy_all(&args[i + 2]);
            proof {
                assert(a@ == f[i as int]);
                assert(b@ == f[i + 1]);
                assert(c@ == f[i + 2]);
            }
            let ghost before = Seq::new(r@.len(), |k: int| (r@[k].0@, r@[k].1@, r@[k].2@));
            r.push((a, b, c));
            i += 3;
            assert(Seq::new(r@.len(), |k: int| (r@[k].0@, r@[k].1@, r@[k].2@)) =~= before.push(
                (a@, b@, c@),
            ));
            assert(triples(f) == Seq::new(r@.len(), |k: int| (r@[k].0@, r@[k].1@, r@[k].2@))
                + triples(f.subrange(i as int, n as int))) by {
                assert(before.push((a@, b@, c@)) + triples(f.subrange(i as int, n as int))
                    =~= before + triples(rest));
            }
        }
        assert(triples(f.subrange(i as int, n as int)) =~= Seq::empty());
        assert(triples(f) =~= Seq::new(r@.len(), |k: int| (r@[k].0@, r@[k].1@, r@[k].2@)));
        r
    }
}

/// A description as it stands in the option text, between double quotes.
pub open spec fn quoted(d: Seq<char>) -> Seq<char> {
    seq!['"'] + d + seq!['"']
}

/// One entry as it is written: `name:type:"description"`.
pub open spec fn entry_text(t: (Seq<char>, Seq<char>, Seq<char>)) -> Seq<char> {
    t.0 + seq![':'] + t.1 + seq![':', '"'] + t.2 + seq!['"']
}

/// Entries written one after the other, joined by commas.
pub open spec fn option_text(ts: Seq<(Seq<char>, Seq<char>, Seq<char>)>) -> Seq<char>
    decreases ts.len(),
{
    if ts.len() == 0 {
        Seq::empty()
    } else if ts.len() == 1 {
        entry_text(ts[0])
    } else {
        option_text(ts.drop_last()) + seq![','] + entry_text(ts.last())
    }
}

/// A name or a type that reads back as itself: it holds no colon and no
/// quote, does not start with a comma and has no whitespace at either end.
pub open spec fn plain_field(s: Seq<char>) -> bool {
    &&& forall|i: int| 0 <= i < s.len() ==> s[i] != ':' && s[i] != '"'
    &&& s.len() > 0 ==> s[0] != ',' && !white_space(s[0]) && !white_space(s.last())
}

/// A description that reads back as itself: it holds no quote.
pub open spec fn plain_about(s: Seq<char>) -> bool {
    forall|i: int| 0 <= i < s.len() ==> s[i] != '"'
}

pub open spec fn plain_entry(t: (Seq<char>, Seq<char>, Seq<char>)) -> bool {
    plain_field(t.0) && plain_field(t.1) && plain_about(t.2)
}

/// The fields that the scanner closes for the given entries.
pub open spec fn entry_fields(ts: Seq<(Seq<char>, Seq<char>, Seq<char>)>) -> Seq<Seq<char>>
    decreases ts.len(),
{
    if ts.len() == 0 {
        Seq::empty()
    } else {
        entry_fields(ts.drop_last()) + seq![ts.last().0, ts.last().1, quoted(ts.last().2)]
    }
}

proof fn lemma_scan_append(st: ScanState, a: Seq<char>, b: Seq<char>)
    ensures
        scan_from(st, a + b) == scan_from(scan_from(st, a), b),
    decreases b.len(),
{
    if b.len() == 0 {
        assert(a + b =~= a);
    } else {
        assert((a + b).drop_last() =~= a + b.drop_last());
        assert((a + b).last() == b.last());
        lemma_scan_append(st, a, b.drop_last());
    }
}

proof fn lemma_scan_one(st: ScanState, c: char)
    ensures
        scan_from(st, seq![c]) == step(st, c),
{
    assert(seq![c].drop_last() =~= Seq::<char>::empty());
    assert(scan_from(st, Seq::<char>::empty()) == st);
    assert(seq![c].last() == c);
}

/// Outside a description, text without colons and quotes only grows the field.
proof fn lemma_scan_plain(f: Seq<Seq<char>>, buf: Seq<char>, s: Seq<char>)
    requires
        forall|i: int| 0 <= i < s.len() ==> s[i] != ':' && s[i] != '"',
    ensures
        scan_from((f, false, buf), s) == (f, false, buf + s),
    decreases s.len(),
{
    if s.len() == 0 {
        assert(buf + s =~= buf);
    } else {
        lemma_scan_plain(f, buf, s.drop_last());
        assert((buf + s.drop_last()).push(s.last()) =~= buf + s);
    }
}

/// Inside a description, text without quotes only grows the field.
proof fn lemma_scan_quoted(f: Seq<Seq<char>>, buf: Seq<char>, s: Seq<char>)
    requires
        plain_about(s),
    ensures
        scan_from((f, true, buf), s) == (f, true, buf + s),
    decreases s.len(),
{
    if s.len() == 0 {
        assert(buf + s =~= buf);
    } else {
        lemma_scan_quoted(f, buf, s.drop_last());
        assert((buf + s.drop_last()).push(s.last()) =~= buf + s);
    }
}

proof fn lemma_trim_keeps(s: Seq<char>)
    requires
        s.len() > 0 ==> !white_space(s[0]) && !white_space(s.last()),
    ensures
        trim(s) == s,
{
}

proof fn lemma_field_of_plain(s: Seq<char>)
    requires
        plain_field(s),
    ensures
        field_of(s) == s,
        field_of(seq![','] + s) == s,
{
    lemma_trim_keeps(s);
    let c = seq![','] + s;
    assert(!white_space(','));
    assert(c.last() == if s.len() > 0 { s.last() } else { ',' });
    lemma_trim_keeps(c);
    assert(c.drop_first() =~= s);
}

proof fn lemma_field_of_quoted(d: Seq<char>)
    ensures
        field_of(quoted(d)) == quoted(d),
{
    assert(!white_space('"'));
    lemma_trim_keeps(quoted(d));
}

/// Scanning one entry closes its three fields and leaves an empty field open.
proof fn lemma_scan_entry(f: Seq<Seq<char>>, sep: Seq<char>, t: (Seq<char>, Seq<char>, Seq<char>))
    requires
        sep == Seq::<char>::empty() || sep == seq![','],
        plain_entry(t),
    ensures
        scan_from((f, false, sep), entry_text(t)) == (
            f + seq![t.0, t.1, quoted(t.2)],
            false,
            Seq::<char>::empty(),
        ),
{
    let e: Seq<char> = Seq::empty();
    let st0 = (f, false, sep);
    let upto_name = t.0;
    let upto_colon = upto_name + seq![':'];
    let upto_type = upto_colon + t.1;
    let upto_quote = upto_type + seq![':', '"'];
    let upto_about = upto_quote + t.2;
    assert(entry_text(t) == upto_about + seq!['"']);
    lemma_scan_plain(f, sep, t.0);
    lemma_field_of_plain(t.0);
    assert(field_of(sep + t.0) == t.0) by {
        if sep.len() == 0 {
            assert(sep + t.0 =~= t.0);
        }
    }
    lemma_scan_append(st0, upto_name, seq![':']);
    lemma_scan_one((f, false, sep + t.0), ':');
    let f1 = f.push(t.0);
    assert(scan_from(st0, upto_colon) == (f1, false, e));
    lemma_scan_append(st0, upto_colon, t.1);
    lemma_scan_plain(f1, e, t.1);
    assert(e + t.1 =~= t.1);
    lemma_scan_append(st0, upto_type, seq![':', '"']);
    lemma_field_of_plain(t.1);
    assert(seq![':', '"'] =~= seq![':'] + seq!['"']);
    lemma_scan_append((f1, false, t.1), seq![':'], seq!['"']);
    lemma_scan_one((f1, false, t.1), ':');
    let f2 = f1.push(t.1);
    lemma_scan_one((f2, false, e), '"');
    assert(e.push('"') =~= seq!['"']);
    assert(scan_from(st0, upto_quote) == (f2, true, seq!['"']));
    lemma_scan_append(st0, upto_quote, t.2);
    lemma_scan_quoted(f2, seq!['"'], t.2);
    lemma_scan_append(st0, upto_about, seq!['"']);
    lemma_scan_one((f2, true, seq!['"'] + t.2), '"');
    assert((seq!['"'] + t.2).push('"') =~= quoted(t.2));
    lemma_field_of_quoted(t.2);
    assert(f2.push(quoted(t.2)) =~= f + seq![t.0, t.1, quoted(t.2)]);
}

proof fn lemma_scan_entries(ts: Seq<(Seq<char>, Seq<char>, Seq<char>)>)
    requires
        forall|i: int| 0 <= i < ts.len() ==> plain_entry(#[trigger] ts[i]),
    ensures
        scan(option_text(ts)) == (entry_fields(ts), false, Seq::<char>::empty()),
    decreases ts.len(),
{
    let e: Seq<char> = Seq::empty();
    if ts.len() == 0 {
    } else if ts.len() == 1 {
        assert(ts.drop_last() =~= Seq::<(Seq<char>, Seq<char>, Seq<char>)>::empty());
        lemma_scan_entry(Seq::empty(), e, ts[0]);
        assert(entry_fields(ts.drop_last()) == Seq::<Seq<char>>::empty());
        assert(ts.last() == ts[0]);
        assert(Seq::<Seq<char>>::empty() + seq![ts[0].0, ts[0].1, quoted(ts[0].2)]
            =~= entry_fields(ts));
    } else {
        let prev = ts.drop_last();
        assert forall|i: int| 0 <= i < prev.len() implies plain_entry(#[trigger] prev[i]) by {
            assert(prev[i] == ts[i]);
        }
        lemma_scan_entries(prev);
        let pt = option_text(prev);
        lemma_scan_append(initial_state(), pt, seq![',']);
        lemma_scan_one((entry_fields(prev), false, e), ',');
        assert(e.push(',') =~= seq![',']);
        lemma_scan_append(initial_state(), pt + seq![','], entry_text(ts.last()));
        lemma_scan_entry(entry_fields(prev), seq![','], ts.last());
    }
}

proof fn lemma_entry_fields_len(ts: Seq<(Seq<char>, Seq<char>, Seq<char>)>)
    ensures
        entry_fields(ts).len() == 3 * ts.len(),
    decreases ts.len(),
{
    if ts.len() > 0 {
        lemma_entry_fields_len(ts.drop_last());
    }
}

proof fn lemma_triples_push(f: Seq<Seq<char>>, a: Seq<char>, b: Seq<char>, c: Seq<char>)
    requires
        f.len() % 3 == 0,
    ensures
        triples(f + seq![a, b, c]) == triples(f) + seq![(a, b, c)],
    decreases f.len(),
{
    let g = f + seq![a, b, c];
    if f.len() == 0 {
        assert(g =~= seq![a, b, c]);
        assert(g.subrange(3, 3) =~= Seq::<Seq<char>>::empty());
        assert(triples(Seq::<Seq<char>>::empty()) == Seq::<(Seq<char>, Seq<char>, Seq<char>)>::empty());
        assert(g[0] == a && g[1] == b && g[2] == c);
        assert(triples(f) == Seq::<(Seq<char>, Seq<char>, Seq<char>)>::empty());
        assert(triples(g) =~= seq![(a, b, c)]);
    } else {
        let rest = f.subrange(3, f.len() as int);
        lemma_triples_push(rest, a, b, c);
        assert(g.subrange(3, g.len() as int) =~= rest + seq![a, b, c]);
        assert(triples(g) =~= triples(f) + seq![(a, b, c)]);
    }
}

proof fn lemma_triples_of_entries(ts: Seq<(Seq<char>, Seq<char>, Seq<char>)>)
    ensures
        triples(entry_fields(ts)) == ts.map_values(
            |t: (Seq<char>, Seq<char>, Seq<char>)| (t.0, t.1, quoted(t.2)),
        ),
    decreases ts.len(),
{
    if ts.len() == 0 {
        assert(ts.map_values(|t: (Seq<char>, Seq<char>, Seq<char>)| (t.0, t.1, quoted(t.2)))
            =~= Seq::empty());
    } else {
        let prev = ts.drop_last();
        let t = ts.last();
        lemma_triples_of_entries(prev);
        lemma_entry_fields_len(prev);
        lemma_triples_push(entry_fields(prev), t.0, t.1, quoted(t.2));
        assert(ts.map_values(|t: (Seq<char>, Seq<char>, Seq<char>)| (t.0, t.1, quoted(t.2)))
            =~= prev.map_values(|t: (Seq<char>, Seq<char>, Seq<char>)| (t.0, t.1, quoted(t.2)))
            + seq![(t.0, t.1, quoted(t.2))]);
    }
}

proof fn lemma_unquote_plain(s: Seq<char>)
    requires
        plain_about(s),
    ensures
        unquote(s) == s,
        unquote(seq!['"'] + s) == s,
        unquote(quoted(s)) == s,
    decreases s.len(),
{
    if s.len() == 0 {
        assert(seq!['"'] + s =~= seq!['"']);
        assert(seq!['"'].drop_last() =~= s);
    } else {
        let p = s.drop_last();
        lemma_unquote_plain(p);
        assert((seq!['"'] + s).drop_last() =~= seq!['"'] + p);
        assert(p.push(s.last()) =~= s);
    }
    assert(quoted(s).drop_last() =~= seq!['"'] + s);
}

/// Entries written as `name:type:"description"` and joined by commas read back
/// as the same entries, whatever commas and colons the descriptions hold,
/// provided names and types are plain and descriptions hold no quote.
pub proof fn lemma_option_text_round_trip(ts: Seq<(Seq<char>, Seq<char>, Seq<char>)>)
    requires
        forall|i: int| 0 <= i < ts.len() ==> plain_entry(#[trigger] ts[i]),
    ensures
        option_entries(option_text(ts)) == ts,
{
    lemma_scan_entries(ts);
    lemma_triples_of_entries(ts);
    let q = ts.map_values(|t: (Seq<char>, Seq<char>, Seq<char>)| (t.0, t.1, quoted(t.2)));
    assert forall|i: int| 0 <= i < ts.len() implies #[trigger] option_entries(option_text(ts))[i]
        == ts[i] by {
        assert(plain_entry(ts[i]));
        assert(plain_about(ts[i].0));
        lemma_unquote_plain(ts[i].0);
        lemma_unquote_plain(ts[i].2);
        assert(q[i] == (ts[i].0, ts[i].1, quoted(ts[i].2)));
    }
    assert(option_entries(option_text(ts)) =~= ts);
}

/// Reads the global-option text into its entries, in order. Empty text has none.
pub fn parse_option_text(text: &Vec<char>) -> (r: Vec<OptionText>)
    ensures
        r@.len() == option_entries(text@).len(),
        forall|i: int| 0 <= i < r@.len() ==> #[trigger] r@[i]@ == option_entries(text@)[i],
{
    let mut acc = Args::new();
    let mut i: usize = 0;
    while i < text.len()
        invariant
            i <= text@.len(),
            acc.state() == scan(text@.subrange(0, i as int)),
        decreases text@.len() - i,
    {
        assert(text@.subrange(0, i + 1).drop_last() =~= text@.subrange(0, i as int));
        acc.feed(text[i]);
        i += 1;
    }
    assert(text@.subrange(0, text@.len() as int) =~= text@);
    let ghost f = acc.fields();
    let found = acc.collect();
    let mut r: Vec<OptionText> = Vec::new();
    let mut k: usize = 0;
    while k < found.len()
        invariant
            k <= found@.len(),
            found@.len() == triples(f).len(),
            f == scan(text@).0,
            forall|j: int|
                k <= j < found@.len() ==> (found@[j].0@, found@[j].1@, found@[j].2@) == #[trigger] triples(f)[j],
            r@.len() == k,
            forall|j: int| 0 <= j < k ==> #[trigger] r@[j]@ == option_entries(text@)[j],
        decreases found@.len() - k,
    {
        let name = unquote_chars(&found[k].0);
        let ty = copy_all(&found[k].1);
        let about = unquote_chars(&found[k].2);
        r.push(OptionText { name, ty, about });
        k += 1;
    }
    r
}

} // verus!
