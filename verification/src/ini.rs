use vstd::prelude::*;
use vstd::string::StringSliceAdditionalSpecFns;
use crate::grammar::is_ident_byte;

verus! {

/// A failure of the configuration reader: the text does not match the
/// format, or a section name is declared twice.
#[derive(Debug, Clone, PartialEq, Eq)]
pub enum ConfigError {
    Syntax { pos: usize, line: usize, col: usize },
    DuplicateSection { name: Vec<u8>, pos: usize, line: usize, col: usize },
}

/// Mathematical image of `ConfigError`.
pub enum ConfigErrorV {
    Syntax { pos: int, line: int, col: int },
    DuplicateSection { name: Seq<u8>, pos: int, line: int, col: int },
}

impl View for ConfigError {
    type V = ConfigErrorV;

    open spec fn view(&self) -> ConfigErrorV {
        match *self {
            ConfigError::Syntax { pos, line, col } => ConfigErrorV::Syntax {
                pos: pos as int,
                line: line as int,
                col: col as int,
            },
            ConfigError::DuplicateSection { name, pos, line, col } => {
                ConfigErrorV::DuplicateSection {
                    name: name@,
                    pos: pos as int,
                    line: line as int,
                    col: col as int,
                }
            },
        }
    }
}

/// The mathematical image of a parsed configuration: section name to
/// key/value mapping.  Properties before any section header live under the
/// empty section name.
pub type ConfigV = Map<Seq<u8>, Map<Seq<u8>, Seq<u8>>>;

/// The bytes a configuration name or value may hold: the identifier class
/// of the language plus `/`.
pub open spec fn is_cfg_byte(c: u8) -> bool {
    is_ident_byte(c) || c == 47
}

/// The first position at or after `i` without a configuration byte.
pub open spec fn cfg_run_end(s: Seq<u8>, i: int) -> int
    decreases s.len() - i,
{
    if 0 <= i < s.len() && is_cfg_byte(s[i]) {
        cfg_run_end(s, i + 1)
    } else {
        i
    }
}

/// Position and column after the run of plain spaces that starts at `i`.
/// Only spaces separate tokens within a line; newlines end the line.
pub open spec fn spec_skip_sp(s: Seq<u8>, i: int, col: int) -> (int, int)
    decreases s.len() - i,
{
    if 0 <= i < s.len() && s[i] == 32 {
        spec_skip_sp(s, i + 1, col + 1)
    } else {
        (i, col)
    }
}

/// What one line of the configuration holds.
pub enum LineKindV {
    /// End of the input, after any trailing spaces.
    End,
    /// Nothing but spaces before the line terminator.
    Blank,
    /// A `[name]` section header; `pos`/`col` locate the name.
    Section { name: Seq<u8>, pos: int, col: int },
    /// A `name = value` property.
    Prop { name: Seq<u8>, value: Seq<u8> },
}

/// A placeholder error for positions the reader can never reach.
pub open spec fn cfg_err_unreachable() -> ConfigErrorV {
    ConfigErrorV::Syntax { pos: 0, line: 1, col: 1 }
}

/// Reads the line terminator that must close a non-final line: a line feed,
/// or a carriage return with an optional line feed.
pub open spec fn spec_cfg_eol(s: Seq<u8>, z: int, line: int, col: int, k: LineKindV) -> Result<
    (LineKindV, int, int, int),
    ConfigErrorV,
>
    recommends
        0 <= z <= s.len(),
{
    if z < s.len() && s[z] == 10 {
        Ok((k, z + 1, line + 1, 1))
    } else if z < s.len() && s[z] == 13 {
        if z + 1 < s.len() && s[z + 1] == 10 {
            Ok((k, z + 2, line + 1, 1))
        } else {
            Ok((k, z + 1, line + 1, 1))
        }
    } else {
        Err(ConfigErrorV::Syntax { pos: z, line, col })
    }
}

/// Classifies the line that starts at `i` and gives the position, line and
/// column just after its terminator.  Every line that holds anything must
/// end in a line terminator; input may end only where a line would start.
pub open spec fn spec_cfg_line(s: Seq<u8>, i: int, line: int, col: int) -> Result<
    (LineKindV, int, int, int),
    ConfigErrorV,
>
    recommends
        0 <= i <= s.len(),
{
    let (j, c2) = spec_skip_sp(s, i, col);
    if !(i <= j <= s.len()) {
        Err(cfg_err_unreachable())
    } else if j == s.len() {
        Ok((LineKindV::End, j, line, c2))
    } else if s[j] == 10 || s[j] == 13 {
        spec_cfg_eol(s, j, line, c2, LineKindV::Blank)
    } else if s[j] == 91 {
        // '[': a section header
        let (k, c3) = spec_skip_sp(s, j + 1, c2 + 1);
        if !(j < k <= s.len()) {
            Err(cfg_err_unreachable())
        } else {
            let m = cfg_run_end(s, k);
            if !(k < m <= s.len()) {
                Err(ConfigErrorV::Syntax { pos: k, line, col: c3 })
            } else {
                let name = s.subrange(k, m);
                let (q, c4) = spec_skip_sp(s, m, c3 + (m - k));
                if !(m <= q <= s.len()) {
                    Err(cfg_err_unreachable())
                } else if q < s.len() && s[q] == 93 {
                    // ']'
                    let (z, c5) = spec_skip_sp(s, q + 1, c4 + 1);
                    if !(q < z <= s.len()) {
                        Err(cfg_err_unreachable())
                    } else {
                        spec_cfg_eol(
                            s,
                            z,
                            line,
                            c5,
                            LineKindV::Section { name, pos: k, col: c3 },
                        )
                    }
                } else {
                    Err(ConfigErrorV::Syntax { pos: q, line, col: c4 })
                }
            }
        }
    } else if is_cfg_byte(s[j]) {
        // a property line
        let m = cfg_run_end(s, j);
        if !(j < m <= s.len()) {
            Err(cfg_err_unreachable())
        } else {
            let name = s.subrange(j, m);
            let (q, c3) = spec_skip_sp(s, m, c2 + (m - j));
            if !(m <= q <= s.len()) {
                Err(cfg_err_unreachable())
            } else if q < s.len() && s[q] == 61 {
                // '='
                let (k2, c4) = spec_skip_sp(s, q + 1, c3 + 1);
                if !(q < k2 <= s.len()) {
                    Err(cfg_err_unreachable())
                } else {
                    let m2 = cfg_run_end(s, k2);
                    if !(k2 <= m2 <= s.len()) {
                        Err(cfg_err_unreachable())
                    } else {
                        let value = s.subrange(k2, m2);
                        let (z, c5) = spec_skip_sp(s, m2, c4 + (m2 - k2));
                        if !(m2 <= z <= s.len()) {
                            Err(cfg_err_unreachable())
                        } else {
                            spec_cfg_eol(s, z, line, c5, LineKindV::Prop { name, value })
                        }
                    }
                }
            } else {
                Err(ConfigErrorV::Syntax { pos: q, line, col: c3 })
            }
        }
    } else {
        Err(ConfigErrorV::Syntax { pos: j, line, col: c2 })
    }
}

/// Folds the lines from position `i` on into the section mapping.  `acc` is
/// what earlier lines built; `cur` is the section that properties currently
/// fall into, the empty name before any header.  A property creates its
/// section lazily; a section header must be new, and a repeated name is a
/// `DuplicateSection` error.
pub open spec fn spec_config(
    s: Seq<u8>,
    i: int,
    line: int,
    col: int,
    acc: ConfigV,
    cur: Seq<u8>,
) -> Result<ConfigV, ConfigErrorV>
    decreases s.len() - i,
{
    match spec_cfg_line(s, i, line, col) {
        Err(e) => Err(e),
        Ok((k, i2, l2, c2)) => if !(i < i2 <= s.len()) && !(k is End) {
            Err(cfg_err_unreachable())
        } else {
            match k {
                LineKindV::End => Ok(acc),
                LineKindV::Blank => spec_config(s, i2, l2, c2, acc, cur),
                LineKindV::Section { name, pos, col: ncol } => if acc.contains_key(name) {
                    Err(ConfigErrorV::DuplicateSection { name, pos, line, col: ncol })
                } else {
                    spec_config(s, i2, l2, c2, acc.insert(name, Map::empty()), name)
                },
                LineKindV::Prop { name, value } => {
                    let acc2 = if acc.contains_key(cur) {
                        acc
                    } else {
                        acc.insert(cur, Map::empty())
                    };
                    spec_config(s, i2, l2, c2, acc2.insert(cur, acc2[cur].insert(name, value)), cur)
                },
            }
        },
    }
}

/// What reading a whole configuration text yields.
pub open spec fn spec_parse_config(s: Seq<u8>) -> Result<ConfigV, ConfigErrorV> {
    spec_config(s, 0, 1, 1, Map::empty(), Seq::empty())
}

} // verus!
use vstd::prelude::*;

verus! {

fn is_cfg_b(c: u8) -> (r: bool)
    ensures
        r == is_cfg_byte(c),
{
    (48 <= c && c <= 57) || (65 <= c && c <= 90) || (97 <= c && c <= 122) || c == 46 || c == 95
        || c == 47
}

proof fn lemma_cfg_run_end_is(s: Seq<u8>, i: int, k: int)
    requires
        0 <= i <= k <= s.len(),
        forall|m: int| i <= m < k ==> is_cfg_byte(s[m]),
        k == s.len() || !is_cfg_byte(s[k]),
    ensures
        cfg_run_end(s, i) == k,
    decreases k - i,
{
    if i < k {
        lemma_cfg_run_end_is(s, i + 1, k);
    }
}

fn cfg_run(s: &[u8], i: usize) -> (j: usize)
    requires
        i <= s@.len(),
    ensures
        cfg_run_end(s@, i as int) == j as int,
        i <= j <= s@.len(),
        i < s@.len() && is_cfg_byte(s@[i as int]) ==> i < j,
{
    let n = s.len();
    let mut j = i;
    while j < n && is_cfg_b(s[j])
        invariant
            i <= j <= n == s@.len(),
            forall|m: int| i <= m < j ==> is_cfg_byte(s@[m]),
        decreases n - j,
    {
        j = j + 1;
    }
    proof {
        lemma_cfg_run_end_is(s@, i as int, j as int);
    }
    j
}

fn skip_sp(s: &[u8], i: usize, col: usize) -> (r: (usize, usize))
    requires
        i <= s@.len() < usize::MAX,
        1 <= col <= i + 1,
    ensures
        spec_skip_sp(s@, i as int, col as int) == (r.0 as int, r.1 as int),
        i <= r.0 <= s@.len(),
        1 <= r.1 <= r.0 + 1,
{
    let n = s.len();
    let mut j = i;
    let mut c = col;
    while j < n && s[j] == 32
        invariant
            i <= j <= n == s@.len() < usize::MAX,
            1 <= c <= j + 1,
            spec_skip_sp(s@, i as int, col as int) == spec_skip_sp(s@, j as int, c as int),
        decreases n - j,
    {
        j = j + 1;
        c = c + 1;
    }
    (j, c)
}

fn word_cfg(src: &[u8], i: usize, j: usize) -> (w: Vec<u8>)
    requires
        i <= j <= src@.len(),
    ensures
        w@ == src@.subrange(i as int, j as int),
{
    let mut w: Vec<u8> = Vec::new();
    let mut k: usize = i;
    while k < j
        invariant
            i <= k <= j <= src@.len(),
            w@ == src@.subrange(i as int, k as int),
        decreases j - k,
    {
        w.push(src[k]);
        proof {
            assert(src@.subrange(i as int, (k + 1) as int) =~= src@.subrange(i as int, k as int)
                .push(src@[k as int]));
        }
        k = k + 1;
    }
    w
}

/// What one line of the configuration holds, as the reader sees it.
enum LineKind {
    End,
    Blank,
    Section { name: Vec<u8>, pos: usize, col: usize },
    Prop { name: Vec<u8>, value: Vec<u8> },
}

spec fn line_kind_view(k: LineKind) -> LineKindV {
    match k {
        LineKind::End => LineKindV::End,
        LineKind::Blank => LineKindV::Blank,
        LineKind::Section { name, pos, col } => LineKindV::Section {
            name: name@,
            pos: pos as int,
            col: col as int,
        },
        LineKind::Prop { name, value } => LineKindV::Prop { name: name@, value: value@ },
    }
}

fn cfg_eol(s: &[u8], z: usize, line: usize, col: usize, k: LineKind) -> (r: Result<
    (LineKind, usize, usize, usize),
    ConfigError,
>)
    requires
        z <= s@.len() < usize::MAX,
        1 <= line <= z + 1,
        1 <= col,
    ensures
        match r {
            Ok((k2, ni, nl, nc)) => spec_cfg_eol(
                s@,
                z as int,
                line as int,
                col as int,
                line_kind_view(k),
            ) == Ok::<(LineKindV, int, int, int), ConfigErrorV>(
                (line_kind_view(k2), ni as int, nl as int, nc as int),
            ) && z < ni <= s@.len() && 1 <= nl <= ni + 1 && 1 <= nc <= ni + 1,
            Err(e) => spec_cfg_eol(s@, z as int, line as int, col as int, line_kind_view(k))
                == Err::<(LineKindV, int, int, int), ConfigErrorV>(e@),
        },
{
    let n = s.len();
    if z < n && s[z] == 10 {
        Ok((k, z + 1, line + 1, 1))
    } else if z < n && s[z] == 13 {
        if z + 1 < n && s[z + 1] == 10 {
            Ok((k, z + 2, line + 1, 1))
        } else {
            Ok((k, z + 1, line + 1, 1))
        }
    } else {
        Err(ConfigError::Syntax { pos: z, line, col })
    }
}

fn cfg_line(s: &[u8], i: usize, line: usize, col: usize) -> (r: Result<
    (LineKind, usize, usize, usize),
    ConfigError,
>)
    requires
        i <= s@.len() < usize::MAX,
        1 <= line <= i + 1,
        1 <= col <= i + 1,
    ensures
        match r {
            Ok((k2, ni, nl, nc)) => spec_cfg_line(s@, i as int, line as int, col as int) == Ok::<
                (LineKindV, int, int, int),
                ConfigErrorV,
            >((line_kind_view(k2), ni as int, nl as int, nc as int)) && ni <= s@.len() && 1 <= nl
                <= ni + 1 && 1 <= nc <= ni + 1 && (match k2 {
                LineKind::End => i <= ni,
                _ => i < ni,
            }),
            Err(e) => spec_cfg_line(s@, i as int, line as int, col as int) == Err::<
                (LineKindV, int, int, int),
                ConfigErrorV,
            >(e@),
        },
{
    let n = s.len();
    let (j, c2) = skip_sp(s, i, col);
    if j == n {
        return Ok((LineKind::End, j, line, c2));
    }
    let c = s[j];
    if c == 10 || c == 13 {
        cfg_eol(s, j, line, c2, LineKind::Blank)
    } else if c == 91 {
        let (k, c3) = skip_sp(s, j + 1, c2 + 1);
        let m = cfg_run(s, k);
        if m == k {
            return Err(ConfigError::Syntax { pos: k, line, col: c3 });
        }
        let name = word_cfg(s, k, m);
        let (q, c4) = skip_sp(s, m, c3 + (m - k));
        if q < n && s[q] == 93 {
            let (z, c5) = skip_sp(s, q + 1, c4 + 1);
            cfg_eol(s, z, line, c5, LineKind::Section { name, pos: k, col: c3 })
        } else {
            Err(ConfigError::Syntax { pos: q, line, col: c4 })
        }
    } else if is_cfg_b(c) {
        let m = cfg_run(s, j);
        let name = word_cfg(s, j, m);
        let (q, c3) = skip_sp(s, m, c2 + (m - j));
        if q < n && s[q] == 61 {
            let (k2, c4) = skip_sp(s, q + 1, c3 + 1);
            let m2 = cfg_run(s, k2);
            let value = word_cfg(s, k2, m2);
            let (z, c5) = skip_sp(s, m2, c4 + (m2 - k2));
            cfg_eol(s, z, line, c5, LineKind::Prop { name, value })
        } else {
            Err(ConfigError::Syntax { pos: q, line, col: c3 })
        }
    } else {
        Err(ConfigError::Syntax { pos: j, line, col: c2 })
    }
}

/// The mapping a configuration file denotes: section names to their
/// key/value pairs.  Section names are unique; within a section, the last
/// assignment to a key wins.
#[derive(Debug)]
pub struct ConfigMap {
    done: Vec<(Vec<u8>, Vec<(Vec<u8>, Vec<u8>)>)>,
    cur_name: Vec<u8>,
    cur_props: Vec<(Vec<u8>, Vec<u8>)>,
    started: bool,
}

spec fn props_map(ps: Seq<(Vec<u8>, Vec<u8>)>) -> Map<Seq<u8>, Seq<u8>>
    decreases ps.len(),
{
    if ps.len() == 0 {
        Map::empty()
    } else {
        props_map(ps.drop_last()).insert(ps.last().0@, ps.last().1@)
    }
}

spec fn sections_map(es: Seq<(Vec<u8>, Vec<(Vec<u8>, Vec<u8>)>)>) -> ConfigV
    decreases es.len(),
{
    if es.len() == 0 {
        Map::empty()
    } else {
        sections_map(es.drop_last()).insert(es.last().0@, props_map(es.last().1@))
    }
}

impl View for ConfigMap {
    type V = ConfigV;

    closed spec fn view(&self) -> ConfigV {
        sections_map(self.entries())
    }
}

impl ConfigMap {
    spec fn entries(&self) -> Seq<(Vec<u8>, Vec<(Vec<u8>, Vec<u8>)>)> {
        if !self.started {
            self.done@
        } else {
            self.done@.push((self.cur_name, self.cur_props))
        }
    }

    /// The section that properties currently fall into.
    spec fn cur_section(&self) -> Seq<u8> {
        self.cur_name@
    }

    /// Section names are pairwise distinct, and the reader's bookkeeping is
    /// consistent before the first section or property.
    pub closed spec fn wf(&self) -> bool {
        &&& (!self.started ==> self.done@.len() == 0 && self.cur_name@ == Seq::<u8>::empty()
            && self.cur_props@.len() == 0)
        &&& (forall|i: int, j: int|
            0 <= i < j < self.entries().len() ==> self.entries()[i].0@ != self.entries()[j].0@)
    }
}

proof fn lemma_sections_found(es: Seq<(Vec<u8>, Vec<(Vec<u8>, Vec<u8>)>)>, k: Seq<u8>, i: int)
    requires
        0 <= i < es.len(),
        es[i].0@ == k,
        forall|j: int| i < j < es.len() ==> es[j].0@ != k,
    ensures
        sections_map(es).contains_key(k),
        sections_map(es)[k] == props_map(es[i].1@),
    decreases es.len(),
{
    if i == es.len() - 1 {
    } else {
        assert(es.drop_last()[i] == es[i]);
        lemma_sections_found(es.drop_last(), k, i);
    }
}

proof fn lemma_sections_found_uniq(es: Seq<(Vec<u8>, Vec<(Vec<u8>, Vec<u8>)>)>, k: Seq<u8>, i: int)
    requires
        forall|a: int, b: int| 0 <= a < b < es.len() ==> es[a].0@ != es[b].0@,
        0 <= i < es.len(),
        es[i].0@ == k,
    ensures
        sections_map(es).contains_key(k),
        sections_map(es)[k] == props_map(es[i].1@),
{
    assert forall|j: int| i < j < es.len() implies es[j].0@ != k by {
        assert(es[i].0@ != es[j].0@);
    }
    lemma_sections_found(es, k, i);
}

proof fn lemma_sections_absent(es: Seq<(Vec<u8>, Vec<(Vec<u8>, Vec<u8>)>)>, k: Seq<u8>)
    requires
        forall|j: int| 0 <= j < es.len() ==> es[j].0@ != k,
    ensures
        !sections_map(es).contains_key(k),
    decreases es.len(),
{
    if es.len() > 0 {
        lemma_sections_absent(es.drop_last(), k);
    }
}

proof fn lemma_props_found(ps: Seq<(Vec<u8>, Vec<u8>)>, k: Seq<u8>, i: int)
    requires
        0 <= i < ps.len(),
        ps[i].0@ == k,
        forall|j: int| i < j < ps.len() ==> ps[j].0@ != k,
    ensures
        props_map(ps).contains_key(k),
        props_map(ps)[k] == ps[i].1@,
    decreases ps.len(),
{
    if i == ps.len() - 1 {
    } else {
        assert(ps.drop_last()[i] == ps[i]);
        lemma_props_found(ps.drop_last(), k, i);
    }
}

proof fn lemma_props_absent(ps: Seq<(Vec<u8>, Vec<u8>)>, k: Seq<u8>)
    requires
        forall|j: int| 0 <= j < ps.len() ==> ps[j].0@ != k,
    ensures
        !props_map(ps).contains_key(k),
    decreases ps.len(),
{
    if ps.len() > 0 {
        lemma_props_absent(ps.drop_last(), k);
    }
}

impl ConfigMap {
    /// Whether a section of this name was declared (or, for the empty name,
    /// created by a property before any section header).
    pub fn contains_section(&self, name: &[u8]) -> (r: bool)
        requires
            self.wf(),
        ensures
            r == self@.contains_key(name@),
    {
        let n = self.done.len();
        let mut i: usize = 0;
        while i < n
            invariant
                self.wf(),
                n == self.done@.len(),
                i <= n,
                forall|j: int| 0 <= j < i ==> self.done@[j].0@ != name@,
            decreases n - i,
        {
            if crate::store::bytes_eq(self.done[i].0.as_slice(), name) {
                proof {
                    assert(self.entries()[i as int] == self.done@[i as int]);
                    lemma_sections_found_uniq(self.entries(), name@, i as int);
                }
                return true;
            }
            i = i + 1;
        }
        if self.started {
            if crate::store::bytes_eq(self.cur_name.as_slice(), name) {
                proof {
                    lemma_sections_found_uniq(self.entries(), name@, self.entries().len() - 1);
                }
                return true;
            }
        }
        proof {
            lemma_sections_absent(self.entries(), name@);
        }
        false
    }

    /// The value of `key` in section `section`, if both exist.
    pub fn get(&self, section: &[u8], key: &[u8]) -> (r: Option<Vec<u8>>)
        requires
            self.wf(),
        ensures
            match r {
                Some(v) => self@.contains_key(section@) && self@[section@].contains_key(key@) && v@
                    == self@[section@][key@],
                None => !self@.contains_key(section@) || !self@[section@].contains_key(key@),
            },
    {
        let n = self.done.len();
        let mut i: usize = 0;
        while i < n
            invariant
                self.wf(),
                n == self.done@.len(),
                i <= n,
                forall|j: int| 0 <= j < i ==> self.done@[j].0@ != section@,
            decreases n - i,
        {
            if crate::store::bytes_eq(self.done[i].0.as_slice(), section) {
                proof {
                    assert(self.entries()[i as int] == self.done@[i as int]);
                    lemma_sections_found_uniq(self.entries(), section@, i as int);
                }
                return props_get(&self.done[i].1, key);
            }
            i = i + 1;
        }
        if self.started {
            if crate::store::bytes_eq(self.cur_name.as_slice(), section) {
                proof {
                    lemma_sections_found_uniq(self.entries(), section@, self.entries().len() - 1);
                }
                return props_get(&self.cur_props, key);
            }
        }
        proof {
            lemma_sections_absent(self.entries(), section@);
        }
        None
    }
}

/// The value of `key` among the pairs, the last assignment winning.
fn props_get(ps: &Vec<(Vec<u8>, Vec<u8>)>, key: &[u8]) -> (r: Option<Vec<u8>>)
    ensures
        match r {
            Some(v) => props_map(ps@).contains_key(key@) && v@ == props_map(ps@)[key@],
            None => !props_map(ps@).contains_key(key@),
        },
{
    let n = ps.len();
    let mut i: usize = n;
    while i > 0
        invariant
            i <= n == ps@.len(),
            forall|j: int| i <= j < n ==> ps@[j].0@ != key@,
        decreases i,
    {
        i = i - 1;
        if crate::store::bytes_eq(ps[i].0.as_slice(), key) {
            proof {
                lemma_props_found(ps@, key@, i as int);
            }
            return Some(ps[i].1.clone());
        }
    }
    proof {
        lemma_props_absent(ps@, key@);
    }
    None
}

/// Reads a flat configuration text — section headers and key/value pairs,
/// one to a line — into its section mapping.  The result is exactly what
/// the format's specification assigns to the bytes of the text.
pub fn parse_to_map(input: &str) -> (r: Result<ConfigMap, ConfigError>)
    requires
        input.spec_bytes().len() < usize::MAX,
    ensures
        match r {
            Ok(m) => m.wf() && spec_parse_config(input.spec_bytes()) == Ok::<
                ConfigV,
                ConfigErrorV,
            >(m@),
            Err(e) => spec_parse_config(input.spec_bytes()) == Err::<ConfigV, ConfigErrorV>(e@),
        },
{
    let s = input.as_bytes();
    let n = s.len();
    let mut m = ConfigMap { done: Vec::new(), cur_name: Vec::new(), cur_props: Vec::new(), started: false };
    let mut i: usize = 0;
    let mut line: usize = 1;
    let mut col: usize = 1;
    loop
        invariant
            n == s@.len() < usize::MAX,
            s@ == input.spec_bytes(),
            i <= n,
            1 <= line <= i + 1,
            1 <= col <= i + 1,
            m.wf(),
            spec_parse_config(s@) == spec_config(
                s@,
                i as int,
                line as int,
                col as int,
                m@,
                m.cur_section(),
            ),
        decreases n - i,
    {
        match cfg_line(s, i, line, col) {
            Err(e) => {
                proof {
                    assert(spec_config(
                        s@,
                        i as int,
                        line as int,
                        col as int,
                        m@,
                        m.cur_section(),
                    ) == Err::<ConfigV, ConfigErrorV>(e@));
                }
                return Err(e);
            },
            Ok((k, i2, l2, c2)) => {
                match k {
                    LineKind::End => {
                        proof {
                            assert(spec_config(
                                s@,
                                i as int,
                                line as int,
                                col as int,
                                m@,
                                m.cur_section(),
                            ) == Ok::<ConfigV, ConfigErrorV>(m@));
                        }
                        return Ok(m);
                    },
                    LineKind::Blank => {
                        i = i2;
                        line = l2;
                        col = c2;
                    },
                    LineKind::Section { name, pos, col: ncol } => {
                        if m.contains_section(name.as_slice()) {
                            return Err(ConfigError::DuplicateSection { name, pos, line, col: ncol });
                        }
                        let ghost pre = m;
                        if m.started {
                            let mut old_name: Vec<u8> = Vec::new();
                            let mut old_props: Vec<(Vec<u8>, Vec<u8>)> = Vec::new();
                            core::mem::swap(&mut old_name, &mut m.cur_name);
                            core::mem::swap(&mut old_props, &mut m.cur_props);
                            m.done.push((old_name, old_props));
                        }
                        m.cur_name = name;
                        m.cur_props = Vec::new();
                        m.started = true;
                        proof {
                            assert(m.entries().drop_last() =~= pre.entries());
                            assert(m@ =~= pre@.insert(m.cur_name@, Map::empty()));
                            assert forall|a: int, b: int|
                                0 <= a < b < m.entries().len() implies m.entries()[a].0@
                                != m.entries()[b].0@ by {
                                if b == m.entries().len() - 1 {
                                    if m.entries()[a].0@ == m.cur_name@ {
                                        lemma_sections_found_wrap(pre, m.cur_name@, a);
                                    }
                                } else {
                                    assert(pre.entries()[a] == m.entries()[a]);
                                    assert(pre.entries()[b] == m.entries()[b]);
                                }
                            }
                        }
                        i = i2;
                        line = l2;
                        col = c2;
                    },
                    LineKind::Prop { name, value } => {
                        let ghost pre = m;
                        if !m.started {
                            m.started = true;
                        }
                        m.cur_props.push((name, value));
                        proof {
                            assert(m.entries().drop_last() =~= pre.done@);
                            assert(m.cur_props@.drop_last() =~= pre.cur_props@);
                            if pre.started {
                                assert(pre.entries().drop_last() =~= pre.done@);
                                assert(pre@.contains_key(pre.cur_name@));
                                assert(pre@[pre.cur_name@] == props_map(pre.cur_props@));
                            } else {
                                assert(pre.entries() =~= Seq::<(Vec<u8>, Vec<(Vec<u8>, Vec<u8>)>)>::empty());
                                assert(!pre@.contains_key(pre.cur_name@));
                            }
                            let acc2 = if pre@.contains_key(pre.cur_section()) {
                                pre@
                            } else {
                                pre@.insert(pre.cur_section(), Map::empty())
                            };
                            assert(m.entries().last() == (m.cur_name, m.cur_props));
                            assert(props_map(m.cur_props@) =~= props_map(pre.cur_props@).insert(
                                name@,
                                value@,
                            ));
                            assert(m@ == sections_map(pre.done@).insert(
                                m.cur_name@,
                                props_map(m.cur_props@),
                            ));
                            assert(m@ =~= acc2.insert(
                                pre.cur_section(),
                                acc2[pre.cur_section()].insert(name@, value@),
                            ));
                        }
                        i = i2;
                        line = l2;
                        col = c2;
                    },
                }
            },
        }
    }
}

proof fn lemma_sections_found_wrap(pre: ConfigMap, k: Seq<u8>, a: int)
    requires
        pre.wf(),
        0 <= a < pre.entries().len(),
        pre.entries()[a].0@ == k,
    ensures
        pre@.contains_key(k),
{
    lemma_sections_found(pre.entries(), k, a);
}

} // verus!
