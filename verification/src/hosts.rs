//! Host overrides: the lines of a hosts file, the table they make up, and
//! where the table comes from.

use vstd::prelude::*;
use vstd::string::*;

use crate::text::{
    copy_texts, find_char, is_space, is_word, law_split, lemma_filter_map_has, lemma_position,
    lemma_trim_bounds, lemma_word_len, lower, lowered, opt, opt_str, position, range_text, same,
    split, split_at_char, texts, to_chars, trim, trimmed, words, words_of,
};

verus! {

// ---------------------------------------------------------------------------
// Lines

/// A line of a hosts file: an address and a host name in lower case.
#[derive(Debug)]
pub struct HostLine {
    pub ip: String,
    pub host: String,
}

/// A line without its comment.
pub open spec fn uncommented(line: Seq<char>) -> Seq<char> {
    line.take(position(line, '#'))
}

/// What a line says: its first word is an address and its second one a host.
/// A line with fewer words says nothing.
pub open spec fn line_entry() -> spec_fn(Seq<char>) -> Option<(Seq<char>, Seq<char>)> {
    |line: Seq<char>|
        {
            let list = words_of(uncommented(line));
            if list.len() >= 2 {
                Some((list[0], lower(list[1])))
            } else {
                None
            }
        }
}

/// What the lines of a hosts file say, in order.
pub open spec fn entries_of(text: Seq<char>) -> Seq<(Seq<char>, Seq<char>)> {
    split(text, '\n').filter_map(line_entry())
}

/// Lines as text.
pub open spec fn line_texts(v: Seq<HostLine>) -> Seq<(Seq<char>, Seq<char>)> {
    v.map_values(|l: HostLine| (l.ip@, l.host@))
}

fn read_line(line: &str) -> (r: Option<HostLine>)
    ensures
        match r {
            Some(l) => line_entry()(line@) == Some((l.ip@, l.host@)),
            None => line_entry()(line@) is None,
        },
{
    let cs = to_chars(line);
    let at: usize = find_char(cs.as_slice(), 0, cs.len(), '#');
    let head = range_text(cs.as_slice(), 0, at);
    proof {
        assert(cs@.subrange(0, cs@.len() as int) =~= line@);
        assert(head@ =~= uncommented(line@));
    }
    let list = words(head.as_str());
    let ghost all = words_of(uncommented(line@));
    assert(list@.len() == all.len());
    if list.len() >= 2 {
        assert(all[0] == list@[0]@ && all[1] == list@[1]@);
        Some(HostLine { ip: list[0].clone(), host: lowered(list[1].as_str()) })
    } else {
        None
    }
}

/// What the lines of a hosts file say, in order. Whether the first word of a
/// line is an address at all is for the caller to tell.
pub fn host_lines(text: &str) -> (r: Vec<HostLine>)
    ensures
        line_texts(r@) == entries_of(text@),
{
    let lines = split_at_char(text, '\n');
    let ghost all = split(text@, '\n');
    let ghost f = line_entry();
    let mut out: Vec<HostLine> = Vec::new();
    let mut i: usize = 0;
    assert(line_texts(out@) =~= all.take(0).filter_map(f));
    while i < lines.len()
        invariant
            i <= lines.len(),
            all == texts(lines@),
            f == line_entry(),
            line_texts(out@) == all.take(i as int).filter_map(f),
        decreases lines.len() - i,
    {
        proof {
            all.lemma_filter_map_take_succ(f, i as int);
            assert(all[i as int] == lines@[i as int]@);
        }
        let ghost before = line_texts(out@);
        if let Some(l) = read_line(lines[i].as_str()) {
            out.push(l);
            assert(line_texts(out@) =~= before.push((l.ip@, l.host@)));
        }
        assert(line_texts(out@) =~= all.take(i + 1).filter_map(f));
        i = i + 1;
    }
    assert(all.take(all.len() as int) =~= all);
    out
}

// ---------------------------------------------------------------------------
// The table

/// Hosts in lower case and the addresses they resolve to. No host occurs twice.
#[derive(Debug)]
pub struct HostMap {
    pub rows: Vec<(String, Vec<String>)>,
}

/// The content of a table, read row by row.
pub open spec fn table_of(rows: Seq<(String, Vec<String>)>) -> Map<Seq<char>, Seq<Seq<char>>>
    decreases rows.len(),
{
    if rows.len() == 0 {
        Map::empty()
    } else {
        table_of(rows.drop_last()).insert(rows.last().0@, texts(rows.last().1@))
    }
}

impl View for HostMap {
    type V = Map<Seq<char>, Seq<Seq<char>>>;

    open spec fn view(&self) -> Map<Seq<char>, Seq<Seq<char>>> {
        table_of(self.rows@)
    }
}

/// Whether no host occurs twice.
pub open spec fn distinct_hosts(rows: Seq<(String, Vec<String>)>) -> bool {
    forall|i: int, j: int|
        0 <= i < j < rows.len() ==> (#[trigger] rows[i]).0@ != (#[trigger] rows[j]).0@
}

proof fn lemma_table(rows: Seq<(String, Vec<String>)>, host: Seq<char>)
    requires
        distinct_hosts(rows),
    ensures
        table_of(rows).contains_key(host) <==> exists|i: int|
            0 <= i < rows.len() && (#[trigger] rows[i]).0@ == host,
        forall|i: int|
            0 <= i < rows.len() && (#[trigger] rows[i]).0@ == host ==> table_of(rows)[host]
                == texts(rows[i].1@),
    decreases rows.len(),
{
    if rows.len() > 0 {
        let rest = rows.drop_last();
        assert(distinct_hosts(rest)) by {
            assert forall|i: int, j: int| 0 <= i < j < rest.len() implies (#[trigger] rest[i]).0@
                != (#[trigger] rest[j]).0@ by {
                assert(rest[i] == rows[i] && rest[j] == rows[j]);
            }
        }
        lemma_table(rest, host);
        let last = rows.last();
        assert(last == rows[rows.len() - 1]);
        if table_of(rest).contains_key(host) {
            let i = choose|i: int| 0 <= i < rest.len() && (#[trigger] rest[i]).0@ == host;
            assert(rows[i].0@ == host);
        }
        if exists|i: int| 0 <= i < rows.len() && (#[trigger] rows[i]).0@ == host {
            let i = choose|i: int| 0 <= i < rows.len() && (#[trigger] rows[i]).0@ == host;
            if i < rest.len() {
                assert(rest[i].0@ == host);
            }
        }
        assert forall|i: int| 0 <= i < rows.len() && (#[trigger] rows[i]).0@ == host implies table_of(
            rows,
        )[host] == texts(rows[i].1@) by {
            if i < rest.len() {
                assert(rest[i] == rows[i]);
                assert(rows[i].0@ != rows[rows.len() - 1].0@);
            }
        }
    }
}

proof fn lemma_table_update(rows: Seq<(String, Vec<String>)>, at: int, row: (String, Vec<String>))
    requires
        distinct_hosts(rows),
        0 <= at < rows.len(),
        rows[at].0@ == row.0@,
    ensures
        distinct_hosts(rows.update(at, row)),
        table_of(rows.update(at, row)) == table_of(rows).insert(row.0@, texts(row.1@)),
{
    let next = rows.update(at, row);
    assert(distinct_hosts(next)) by {
        assert forall|i: int, j: int| 0 <= i < j < next.len() implies (#[trigger] next[i]).0@ != (
        #[trigger] next[j]).0@ by {
            assert(next[i].0@ == rows[i].0@ && next[j].0@ == rows[j].0@);
            assert(rows[i].0@ != rows[j].0@);
        }
    }
    let a = table_of(next);
    let b = table_of(rows).insert(row.0@, texts(row.1@));
    assert forall|h: Seq<char>| a.contains_key(h) <==> b.contains_key(h) by {
        lemma_table(next, h);
        lemma_table(rows, h);
        assert(next[at].0@ == row.0@);
        if a.contains_key(h) {
            let i = choose|i: int| 0 <= i < next.len() && (#[trigger] next[i]).0@ == h;
            assert(rows[i].0@ == h);
        }
        if table_of(rows).contains_key(h) {
            let i = choose|i: int| 0 <= i < rows.len() && (#[trigger] rows[i]).0@ == h;
            assert(next[i].0@ == h);
        }
    }
    assert forall|h: Seq<char>| a.contains_key(h) implies #[trigger] a[h] == b[h] by {
        lemma_table(next, h);
        lemma_table(rows, h);
        let i = choose|i: int| 0 <= i < next.len() && (#[trigger] next[i]).0@ == h;
        assert(rows[i].0@ == h);
        if i != at {
            assert(next[i] == rows[i]);
            if h == row.0@ {
                if i < at {
                    assert(rows[i].0@ != rows[at].0@);
                } else {
                    assert(rows[at].0@ != rows[i].0@);
                }
            }
        }
    }
    assert(a =~= b);
}

proof fn lemma_table_push(rows: Seq<(String, Vec<String>)>, row: (String, Vec<String>))
    requires
        distinct_hosts(rows),
        !table_of(rows).contains_key(row.0@),
    ensures
        distinct_hosts(rows.push(row)),
        table_of(rows.push(row)) == table_of(rows).insert(row.0@, texts(row.1@)),
{
    let next = rows.push(row);
    lemma_table(rows, row.0@);
    assert(next.drop_last() =~= rows);
    assert forall|i: int, j: int| 0 <= i < j < next.len() implies (#[trigger] next[i]).0@ != (
    #[trigger] next[j]).0@ by {
        assert(next[i] == rows[i]);
        if j < rows.len() {
            assert(next[j] == rows[j]);
        }
    }
}

/// The table with one more address for a host.
pub open spec fn with_address(
    table: Map<Seq<char>, Seq<Seq<char>>>,
    host: Seq<char>,
    ip: Seq<char>,
) -> Map<Seq<char>, Seq<Seq<char>>> {
    if table.contains_key(host) {
        table.insert(host, table[host].push(ip))
    } else {
        table.insert(host, seq![ip])
    }
}

/// The table that a list of lines makes up: each line that counts adds its
/// address to its host.
pub open spec fn table_of_lines(lines: Seq<(Seq<char>, Seq<char>)>, counts: Seq<bool>) -> Map<
    Seq<char>,
    Seq<Seq<char>>,
>
    decreases lines.len(),
{
    if lines.len() == 0 {
        Map::empty()
    } else {
        let rest = table_of_lines(lines.drop_last(), counts);
        if counts[lines.len() - 1] {
            with_address(rest, lines.last().1, lines.last().0)
        } else {
            rest
        }
    }
}

impl HostMap {
    /// Whether no host occurs twice.
    pub open spec fn wf(self) -> bool {
        distinct_hosts(self.rows@)
    }

    /// A table without hosts.
    pub fn new() -> (r: HostMap)
        ensures
            r.wf(),
            r@ == Map::<Seq<char>, Seq<Seq<char>>>::empty(),
    {
        HostMap { rows: Vec::new() }
    }

    fn find(&self, host: &str) -> (r: Option<usize>)
        requires
            self.wf(),
        ensures
            match r {
                Some(i) => i < self.rows@.len() && self.rows@[i as int].0@ == host@
                    && self@.contains_key(host@) && self@[host@] == texts(
                    self.rows@[i as int].1@,
                ),
                None => !self@.contains_key(host@),
            },
    {
        proof {
            lemma_table(self.rows@, host@);
        }
        let mut i: usize = 0;
        while i < self.rows.len()
            invariant
                i <= self.rows.len(),
                forall|k: int| 0 <= k < i ==> (#[trigger] self.rows@[k]).0@ != host@,
                self@.contains_key(host@) <==> exists|k: int|
                    0 <= k < self.rows@.len() && (#[trigger] self.rows@[k]).0@ == host@,
                forall|k: int|
                    0 <= k < self.rows@.len() && (#[trigger] self.rows@[k]).0@ == host@
                        ==> self@[host@] == texts(self.rows@[k].1@),
            decreases self.rows.len() - i,
        {
            if same(self.rows[i].0.as_str(), host) {
                assert(self.rows@[i as int].0@ == host@);
                return Some(i);
            }
            i = i + 1;
        }
        None
    }

    /// The addresses of a host.
    pub fn get(&self, host: &str) -> (r: Option<&Vec<String>>)
        requires
            self.wf(),
        ensures
            match r {
                Some(v) => self@.contains_key(host@) && texts(v@) == self@[host@],
                None => !self@.contains_key(host@),
            },
    {
        match self.find(host) {
            Some(i) => Some(&self.rows[i].1),
            None => None,
        }
    }

    /// Whether there are no hosts.
    pub fn is_empty(&self) -> (r: bool)
        requires
            self.wf(),
        ensures
            r == (self@.dom() == Set::<Seq<char>>::empty()),
    {
        proof {
            if self.rows@.len() > 0 {
                let h = self.rows@[0].0@;
                lemma_table(self.rows@, h);
                assert(self@.dom().contains(h));
            }
        }
        self.rows.len() == 0
    }

    /// Puts a host in the table, in place of what it had.
    pub fn insert(&mut self, host: String, addresses: Vec<String>)
        requires
            old(self).wf(),
        ensures
            final(self).wf(),
            final(self)@ == old(self)@.insert(host@, texts(addresses@)),
    {
        let ghost before = self.rows@;
        match self.find(host.as_str()) {
            Some(i) => {
                proof {
                    lemma_table_update(before, i as int, (host, addresses));
                }
                self.rows.set(i, (host, addresses));
            },
            None => {
                proof {
                    lemma_table_push(before, (host, addresses));
                }
                self.rows.push((host, addresses));
            },
        }
    }

    /// Adds an address to a host.
    pub fn push_address(&mut self, host: &str, ip: &str)
        requires
            old(self).wf(),
        ensures
            final(self).wf(),
            final(self)@ == with_address(old(self)@, host@, ip@),
    {
        let mut list = match self.get(host) {
            Some(v) => copy_texts(v),
            None => {
                let none: Vec<String> = Vec::new();
                assert(texts(none@) =~= Seq::empty());
                none
            },
        };
        let ghost before = texts(list@);
        let text = ip.to_owned();
        list.push(text);
        assert(texts(list@) =~= before.push(text@));
        assert(seq![ip@] =~= Seq::empty().push(ip@));
        self.insert(host.to_owned(), list);
    }
}

/// The table that a list of lines makes up. `counts` tells of each line
/// whether its first word is an address.
pub fn parse_hosts(lines: &Vec<HostLine>, counts: &Vec<bool>) -> (r: HostMap)
    requires
        lines@.len() == counts@.len(),
    ensures
        r.wf(),
        r@ == table_of_lines(line_texts(lines@), counts@),
{
    let ghost all = line_texts(lines@);
    let mut map = HostMap::new();
    let mut i: usize = 0;
    while i < lines.len()
        invariant
            i <= lines.len() == counts.len(),
            all == line_texts(lines@),
            map.wf(),
            map@ == table_of_lines(all.take(i as int), counts@),
        decreases lines.len() - i,
    {
        proof {
            assert(all.take(i + 1).drop_last() =~= all.take(i as int));
            assert(all.take(i + 1).last() == all[i as int]);
        }
        if counts[i] {
            map.push_address(lines[i].host.as_str(), lines[i].ip.as_str());
        }
        i = i + 1;
    }
    assert(all.take(all.len() as int) =~= all);
    map
}

/// Puts the hosts of `src` in the table, each in place of what it had.
pub fn merge(dst: &mut HostMap, src: HostMap)
    requires
        old(dst).wf(),
        src.wf(),
    ensures
        final(dst).wf(),
        final(dst)@ == old(dst)@.union_prefer_right(src@),
{
    let ghost before = dst@;
    let mut i: usize = 0;
    assert(before.union_prefer_right(Map::empty()) =~= before);
    assert(table_of(src.rows@.take(0)) =~= Map::empty());
    while i < src.rows.len()
        invariant
            i <= src.rows.len(),
            dst.wf(),
            dst@ == before.union_prefer_right(table_of(src.rows@.take(i as int))),
        decreases src.rows.len() - i,
    {
        let ghost part = table_of(src.rows@.take(i as int));
        let row = &src.rows[i];
        dst.insert(row.0.clone(), copy_texts(&row.1));
        proof {
            assert(src.rows@.take(i + 1).drop_last() =~= src.rows@.take(i as int));
            assert(before.union_prefer_right(part).insert(row.0@, texts(row.1@))
                =~= before.union_prefer_right(part.insert(row.0@, texts(row.1@))));
        }
        i = i + 1;
    }
    assert(src.rows@.take(src.rows@.len() as int) =~= src.rows@);
}

/// A later source overrides an earlier one host by host: a host that the later
/// source names has its addresses and no others, and any other host keeps
/// what it had.
pub proof fn law_later_source_overrides(
    earlier: Map<Seq<char>, Seq<Seq<char>>>,
    later: Map<Seq<char>, Seq<Seq<char>>>,
    host: Seq<char>,
)
    ensures
        later.contains_key(host) ==> earlier.union_prefer_right(later)[host] == later[host],
        !later.contains_key(host) && earlier.contains_key(host) ==> earlier.union_prefer_right(
            later,
        )[host] == earlier[host],
        earlier.union_prefer_right(later).contains_key(host) <==> earlier.contains_key(host)
            || later.contains_key(host),
{
}

// ---------------------------------------------------------------------------
// Where the table comes from

/// A setting that counts: without the blanks around it, and not empty.
pub open spec fn setting(v: Option<Seq<char>>) -> Option<Seq<char>> {
    match v {
        Some(s) => if trim(s).len() == 0 {
            None
        } else {
            Some(trim(s))
        },
        None => None,
    }
}

/// A setting that counts.
pub fn read_setting(v: Option<&str>) -> (r: Option<String>)
    ensures
        opt(r) == setting(opt_str(v)),
{
    match v {
        Some(s) => {
            let t = trimmed(s);
            if t.as_str().is_empty() {
                None
            } else {
                Some(t)
            }
        },
        None => None,
    }
}

/// Where hosts are to be taken from next.
#[derive(Debug)]
pub enum HostsStep {
    /// Fetch them from this address.
    Fetch(String),
    /// Read them from this file.
    ReadFile(String),
    /// Keep what was fetched in this file, for times without a network.
    Cache(String),
    /// There is no further source.
    Finish,
}

/// Whether a step is the one that is described.
pub open spec fn step_is(step: HostsStep, what: HostsStepView) -> bool {
    match (step, what) {
        (HostsStep::Fetch(a), HostsStepView::Fetch(b)) => a@ == b,
        (HostsStep::ReadFile(a), HostsStepView::ReadFile(b)) => a@ == b,
        (HostsStep::Cache(a), HostsStepView::Cache(b)) => a@ == b,
        (HostsStep::Finish, HostsStepView::Finish) => true,
        _ => false,
    }
}

/// Where hosts are to be taken from next.
pub enum HostsStepView {
    Fetch(Seq<char>),
    ReadFile(Seq<char>),
    Cache(Seq<char>),
    Finish,
}

/// The first source: the address where one is set, else the file.
pub open spec fn first_source(url: Option<Seq<char>>, file: Option<Seq<char>>) -> HostsStepView {
    match (setting(url), setting(file)) {
        (Some(u), _) => HostsStepView::Fetch(u),
        (None, Some(f)) => HostsStepView::ReadFile(f),
        (None, None) => HostsStepView::Finish,
    }
}

/// The first source.
pub fn first_hosts_step(url: Option<&str>, file: Option<&str>) -> (r: HostsStep)
    ensures
        step_is(r, first_source(opt_str(url), opt_str(file))),
{
    match read_setting(url) {
        Some(u) => HostsStep::Fetch(u),
        None => match read_setting(file) {
            Some(f) => HostsStep::ReadFile(f),
            None => HostsStep::Finish,
        },
    }
}

/// What follows a fetch: what was fetched is kept in the file, and where
/// nothing could be fetched the file takes its place.
pub open spec fn after_fetching(fetched: bool, file: Option<Seq<char>>) -> HostsStepView {
    match setting(file) {
        Some(f) => if fetched {
            HostsStepView::Cache(f)
        } else {
            HostsStepView::ReadFile(f)
        },
        None => HostsStepView::Finish,
    }
}

/// What follows a fetch.
pub fn after_fetch(fetched: bool, file: Option<&str>) -> (r: HostsStep)
    ensures
        step_is(r, after_fetching(fetched, opt_str(file))),
{
    match read_setting(file) {
        Some(f) => if fetched {
            HostsStep::Cache(f)
        } else {
            HostsStep::ReadFile(f)
        },
        None => HostsStep::Finish,
    }
}

/// The whole table: what the address or the file gave, overridden by the
/// lines of the configuration itself.
pub fn final_hosts(source: HostMap, inline: HostMap) -> (r: HostMap)
    requires
        source.wf(),
        inline.wf(),
    ensures
        r.wf(),
        r@ == source@.union_prefer_right(inline@),
{
    let mut map = source;
    merge(&mut map, inline);
    map
}

// ---------------------------------------------------------------------------
// Overrides

/// A character that the name of a header can hold.
pub open spec fn name_char(c: char) -> bool {
    ||| '0' <= c <= '9'
    ||| 'A' <= c <= 'Z'
    ||| 'a' <= c <= 'z'
    ||| '#' <= c <= '\''
    ||| '^' <= c <= '`'
    ||| c == '!' || c == '*' || c == '+' || c == '-' || c == '.' || c == '|' || c == '~'
}

/// Whether a text can be the name of a header.
pub open spec fn header_name(s: Seq<char>) -> bool {
    0 < s.len() <= 65535 && forall|i: int| 0 <= i < s.len() ==> name_char(#[trigger] s[i])
}

/// `HeaderName::from_bytes` of the `http` crate. The contract claims that it
/// takes a name of at most 65535 characters, each of which a header name can
/// hold, and nothing else.
#[verifier::external_body]
fn is_header_name(s: &str) -> (r: bool)
    ensures
        r == header_name(s@),
{
    http::header::HeaderName::from_bytes(s.as_bytes()).is_ok()
}

/// Hosts and their addresses as text.
pub open spec fn row_texts(rows: Seq<(String, Vec<String>)>) -> Seq<(Seq<char>, Seq<Seq<char>>)> {
    rows.map_values(|row: (String, Vec<String>)| (row.0@, texts(row.1@)))
}

/// A host with its addresses, where it has any and its name is one.
pub open spec fn applied_row() -> spec_fn((Seq<char>, Seq<Seq<char>>)) -> Option<
    (Seq<char>, Seq<Seq<char>>),
> {
    |row: (Seq<char>, Seq<Seq<char>>)|
        if row.1.len() > 0 && header_name(row.0) {
            Some(row)
        } else {
            None
        }
}

/// The name of a host with addresses, where it cannot be one.
pub open spec fn refused_row() -> spec_fn((Seq<char>, Seq<Seq<char>>)) -> Option<Seq<char>> {
    |row: (Seq<char>, Seq<Seq<char>>)|
        if row.1.len() > 0 && !header_name(row.0) {
            Some(row.0)
        } else {
            None
        }
}

/// Which hosts are overridden, and which names are passed over.
#[derive(Debug)]
pub struct Overrides {
    pub applied: Vec<(String, Vec<String>)>,
    pub refused: Vec<String>,
}

/// Which hosts are overridden: those with addresses, unless a name cannot be
/// that of a host.
pub fn overrides(hosts: &HostMap) -> (r: Overrides)
    ensures
        row_texts(r.applied@) == row_texts(hosts.rows@).filter_map(applied_row()),
        texts(r.refused@) == row_texts(hosts.rows@).filter_map(refused_row()),
{
    let ghost all = row_texts(hosts.rows@);
    let ghost f = applied_row();
    let ghost g = refused_row();
    let mut applied: Vec<(String, Vec<String>)> = Vec::new();
    let mut refused: Vec<String> = Vec::new();
    let mut i: usize = 0;
    assert(row_texts(applied@) =~= all.take(0).filter_map(f));
    assert(texts(refused@) =~= all.take(0).filter_map(g));
    while i < hosts.rows.len()
        invariant
            i <= hosts.rows.len(),
            all == row_texts(hosts.rows@),
            f == applied_row(),
            g == refused_row(),
            row_texts(applied@) == all.take(i as int).filter_map(f),
            texts(refused@) == all.take(i as int).filter_map(g),
        decreases hosts.rows.len() - i,
    {
        let ghost before = row_texts(applied@);
        let ghost told = texts(refused@);
        let row = &hosts.rows[i];
        proof {
            all.lemma_filter_map_take_succ(f, i as int);
            all.lemma_filter_map_take_succ(g, i as int);
            assert(all[i as int] == (row.0@, texts(row.1@)));
        }
        if row.1.len() > 0 {
            if is_header_name(row.0.as_str()) {
                let copy = (row.0.clone(), copy_texts(&row.1));
                applied.push(copy);
                assert(row_texts(applied@) =~= before.push((row.0@, texts(row.1@))));
            } else {
                refused.push(row.0.clone());
                assert(texts(refused@) =~= told.push(row.0@));
            }
        }
        assert(row_texts(applied@) =~= all.take(i + 1).filter_map(f));
        assert(texts(refused@) =~= all.take(i + 1).filter_map(g));
        i = i + 1;
    }
    assert(all.take(all.len() as int) =~= all);
    Overrides { applied, refused }
}

/// Whether overrides have no effect because a proxy resolves the names.
pub fn proxy_hides_hosts(proxy_url: Option<&str>, hosts: &HostMap) -> (r: bool)
    requires
        hosts.wf(),
    ensures
        r == (setting(opt_str(proxy_url)) is Some && hosts@.dom() != Set::<Seq<char>>::empty()),
{
    read_setting(proxy_url).is_some() && !hosts.is_empty()
}

// ---------------------------------------------------------------------------
// What a hosts file says

/// A line gives the address in front and the host behind it, in lower case;
/// what follows a hash sign is no part of it.
pub proof fn law_line_is_read(ip: Seq<char>, host: Seq<char>, comment: Seq<char>)
    requires
        is_word(ip) && is_word(host),
        !ip.contains('#') && !host.contains('#'),
    ensures
        line_entry()(ip.push(' ') + host) == Some((ip, lower(host))),
        line_entry()((ip.push(' ') + host).push('#') + comment) == Some((ip, lower(host))),
        line_entry()(ip) is None,
        line_entry()(seq!['#'] + comment) is None,
{
    let line = ip.push(' ') + host;
    let noted = line.push('#') + comment;
    let note = seq!['#'] + comment;
    let none = Seq::<char>::empty();
    assert forall|i: int| 0 <= i < line.len() implies #[trigger] line[i] != '#' && noted[i] != '#' by {
        if i < ip.len() {
            assert(ip.contains(ip[i]));
        } else if i > ip.len() {
            assert(host.contains(host[i - ip.len() - 1]));
        }
    }
    assert forall|i: int| 0 <= i < line.len() implies #[trigger] noted[i] != '#' by {
        assert(noted[i] == line[i]);
    }
    assert forall|i: int| 0 <= i < ip.len() implies #[trigger] ip[i] != '#' by {
        assert(ip.contains(ip[i]));
    }
    lemma_position(line, '#', line.len() as int);
    lemma_position(noted, '#', line.len() as int);
    lemma_position(ip, '#', ip.len() as int);
    assert(note[0] == '#');
    assert(noted.take(line.len() as int) =~= line);
    assert(line.take(line.len() as int) =~= line);
    assert(ip.take(ip.len() as int) =~= ip);
    assert(note.take(0) =~= none);
    reveal_with_fuel(words_of, 4);
    assert forall|i: int| 0 <= i < ip.len() implies !is_space(#[trigger] line[i]) by {
        assert(line[i] == ip[i]);
    }
    assert(line[ip.len() as int] == ' ');
    lemma_word_len(line, ip.len() as int);
    assert(line.take(ip.len() as int) =~= ip);
    assert(line[0] == ip[0]);
    let rest = line.skip(ip.len() as int);
    assert(rest[0] == ' ');
    assert(rest.skip(1) =~= host);
    lemma_word_len(host, host.len() as int);
    lemma_word_len(ip, ip.len() as int);
    assert(host.take(host.len() as int) =~= host);
    assert(host.skip(host.len() as int) =~= none);
    assert(ip.skip(ip.len() as int) =~= none);
    assert(words_of(host) =~= seq![host]);
    assert(words_of(line) =~= seq![ip, host]);
    assert(words_of(ip) =~= seq![ip]);
}

/// A line that counts adds its address behind those that the host has already;
/// the addresses of other hosts stay, and a line that does not count changes
/// nothing.
pub proof fn law_addresses_gather(
    lines: Seq<(Seq<char>, Seq<char>)>,
    counts: Seq<bool>,
    line: (Seq<char>, Seq<char>),
    other: Seq<char>,
)
    requires
        counts.len() == lines.len() + 1,
        other != line.1,
    ensures
        ({
            let before = table_of_lines(lines, counts);
            let after = table_of_lines(lines.push(line), counts);
            &&& !counts.last() ==> after == before
            &&& counts.last() ==> {
                &&& after.contains_key(line.1)
                &&& before.contains_key(line.1) ==> after[line.1] == before[line.1].push(line.0)
                &&& !before.contains_key(line.1) ==> after[line.1] == seq![line.0]
                &&& after.contains_key(other) == before.contains_key(other)
                &&& before.contains_key(other) ==> after[other] == before[other]
            }
        }),
{
    assert(lines.push(line).drop_last() =~= lines);
}

/// The hosts come from the address where one is set; from the file where there
/// is none or it does not answer; and what was fetched is kept in the file.
pub proof fn law_hosts_sources(url: Seq<char>, file: Seq<char>, fetched: bool)
    requires
        url.len() > 0 && !is_space(url[0]) && !is_space(url.last()),
        file.len() > 0 && !is_space(file[0]) && !is_space(file.last()),
    ensures
        first_source(Some(url), Some(file)) == HostsStepView::Fetch(url),
        first_source(Some(url), None) == HostsStepView::Fetch(url),
        first_source(None, Some(file)) == HostsStepView::ReadFile(file),
        first_source(Some(Seq::empty()), Some(file)) == HostsStepView::ReadFile(file),
        first_source(None, None) == HostsStepView::Finish,
        after_fetching(true, Some(file)) == HostsStepView::Cache(file),
        after_fetching(false, Some(file)) == HostsStepView::ReadFile(file),
        after_fetching(fetched, None) == HostsStepView::Finish,
        after_fetching(fetched, Some(Seq::empty())) == HostsStepView::Finish,
{
    let p = |c: char| is_space(c);
    let none = Seq::<char>::empty();
    lemma_trim_bounds(url, p, 0, url.len() as int);
    lemma_trim_bounds(file, p, 0, file.len() as int);
    lemma_trim_bounds(none, p, 0, 0);
    assert(url.subrange(0, url.len() as int) =~= url);
    assert(file.subrange(0, file.len() as int) =~= file);
}

/// Every host with addresses is either applied, with these addresses, or
/// refused, and which of the two goes by its name; a host without addresses is
/// neither.
pub proof fn law_overrides_are_told_apart(rows: Seq<(Seq<char>, Seq<Seq<char>>)>, i: int)
    requires
        0 <= i < rows.len(),
    ensures
        rows[i].1.len() > 0 && header_name(rows[i].0) ==> rows.filter_map(applied_row()).contains(
            rows[i],
        ),
        rows[i].1.len() > 0 && !header_name(rows[i].0) ==> rows.filter_map(refused_row()).contains(
            rows[i].0,
        ),
        forall|row: (Seq<char>, Seq<Seq<char>>)| #[trigger]
            rows.filter_map(applied_row()).contains(row) ==> rows.contains(row) && row.1.len() > 0
                && header_name(row.0),
        forall|host: Seq<char>| #[trigger]
            rows.filter_map(refused_row()).contains(host) ==> !header_name(host),
{
    let a = applied_row();
    let r = refused_row();
    if rows[i].1.len() > 0 && header_name(rows[i].0) {
        lemma_filter_map_has(rows, a, i);
    }
    if rows[i].1.len() > 0 && !header_name(rows[i].0) {
        lemma_filter_map_has(rows, r, i);
    }
    assert forall|row: (Seq<char>, Seq<Seq<char>>)| #[trigger]
        rows.filter_map(a).contains(row) implies rows.contains(row) && row.1.len() > 0
        && header_name(row.0) by {
        rows.lemma_filter_map_contains(a, row);
    }
    assert forall|host: Seq<char>| #[trigger] rows.filter_map(r).contains(host) implies !header_name(
        host,
    ) by {
        rows.lemma_filter_map_contains(r, host);
    }
}

/// A file is read line by line: one more line adds its entry behind the others,
/// or nothing where it has none.
pub proof fn law_lines_are_read_in_order(text: Seq<char>, line: Seq<char>)
    requires
        !line.contains('\n'),
    ensures
        line_entry()(line) is Some ==> entries_of(text.push('\n') + line) == entries_of(text).push(
            line_entry()(line)->0,
        ),
        line_entry()(line) is None ==> entries_of(text.push('\n') + line) == entries_of(text),
{
    let f = line_entry();
    let all = split(text, '\n').push(line);
    let n = split(text, '\n').len() as int;
    law_split(text, line, '\n');
    all.lemma_filter_map_take_succ(f, n);
    assert(all.take(n) =~= split(text, '\n'));
    assert(all.take(n + 1) =~= all);
    assert(all[n] == line);
    if f(line) is Some {
        assert(entries_of(text) + seq![f(line)->0] =~= entries_of(text).push(f(line)->0));
    } else {
        assert(entries_of(text) + Seq::<(Seq<char>, Seq<char>)>::empty() =~= entries_of(text));
    }
}

/// A step does what its plan says: the same thing, with the same address or file.
pub proof fn law_steps_follow_plans(step: HostsStep, what: HostsStepView)
    requires
        step_is(step, what),
    ensures
        what matches HostsStepView::Fetch(u) ==> (step matches HostsStep::Fetch(s) && s@ == u),
        what matches HostsStepView::ReadFile(f) ==> (step matches HostsStep::ReadFile(s) && s@
            == f),
        what matches HostsStepView::Cache(f) ==> (step matches HostsStep::Cache(s) && s@ == f),
        what is Finish ==> step is Finish,
{
}

} // verus!
