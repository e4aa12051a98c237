use vstd::prelude::*;
use crate::text::{chars_of, str_eq, string_from_chars};
use crate::threat::strings_view;

verus! {

/// A symbol of the running kernel.
#[derive(Debug)]
pub struct KernelSymbol {
    pub name: String,
    pub address: u64,
    pub size: u64,
    pub module: Option<String>,
    pub is_function: bool,
}

/// The mathematical content of a [`KernelSymbol`].
pub struct SymbolModel {
    pub name: Seq<char>,
    pub address: u64,
    pub size: u64,
    pub module: Option<Seq<char>>,
    pub is_function: bool,
}

impl View for KernelSymbol {
    type V = SymbolModel;

    open spec fn view(&self) -> SymbolModel {
        SymbolModel {
            name: self.name@,
            address: self.address,
            size: self.size,
            module: match self.module {
                Some(m) => Some(m@),
                None => None,
            },
            is_function: self.is_function,
        }
    }
}

/// The views of a sequence of symbols.
pub open spec fn symbols_view(v: Seq<KernelSymbol>) -> Seq<SymbolModel> {
    Seq::new(v.len(), |i: int| v[i]@)
}

/// Symbol names are pairwise distinct.
pub open spec fn names_distinct(s: Seq<SymbolModel>) -> bool {
    forall|i: int, j: int| 0 <= i < s.len() && 0 <= j < s.len() && i != j ==> s[i].name != s[j].name
}

/// The position of the symbol named `name`, if any.
pub open spec fn sym_pos(s: Seq<SymbolModel>, name: Seq<char>) -> Option<int> {
    if exists|i: int| 0 <= i < s.len() && s[i].name == name {
        Some(choose|i: int| 0 <= i < s.len() && s[i].name == name)
    } else {
        None
    }
}

/// The symbols after `m` is stored: one of the same name is replaced in
/// place, otherwise `m` goes at the end.
pub open spec fn sym_put(s: Seq<SymbolModel>, m: SymbolModel) -> Seq<SymbolModel> {
    match sym_pos(s, m.name) {
        Some(i) => s.update(i, m),
        None => s.push(m),
    }
}

/// Whether `c` has the Unicode `White_Space` property (as
/// `char::is_whitespace` tests it).
pub open spec fn is_space(c: char) -> bool {
    let u = c as u32;
    (0x09 <= u <= 0x0D) || u == 0x20 || u == 0x85 || u == 0xA0 || u == 0x1680
        || (0x2000 <= u <= 0x200A) || u == 0x2028 || u == 0x2029 || u == 0x202F || u == 0x205F || u == 0x3000
}

pub(crate) fn space(c: char) -> (b: bool)
    ensures
        b == is_space(c),
{
    let u = c as u32;
    (0x09 <= u && u <= 0x0D) || u == 0x20 || u == 0x85 || u == 0xA0 || u == 0x1680
        || (0x2000 <= u && u <= 0x200A) || u == 0x2028 || u == 0x2029 || u == 0x202F || u == 0x205F || u == 0x3000
}

/// The words of a text: its maximal runs of non-space characters, in
/// order (as `str::split_whitespace` gives them).
pub open spec fn words(s: Seq<char>) -> Seq<Seq<char>>
    decreases s.len(),
{
    if s.len() == 0 {
        Seq::empty()
    } else {
        let p = s.drop_last();
        let c = s.last();
        let w = words(p);
        if is_space(c) {
            w
        } else if p.len() > 0 && !is_space(p.last()) && w.len() > 0 {
            w.update(w.len() - 1, w.last().push(c))
        } else {
            w.push(seq![c])
        }
    }
}

/// The pieces of a text between newlines, in order; a text ending in a
/// newline ends with an empty piece.
pub open spec fn pieces(s: Seq<char>) -> Seq<Seq<char>>
    decreases s.len(),
{
    if s.len() == 0 {
        seq![Seq::empty()]
    } else {
        let p = pieces(s.drop_last());
        if s.last() == '\n' {
            p.push(Seq::empty())
        } else {
            p.update(p.len() - 1, p.last().push(s.last()))
        }
    }
}

pub(crate) proof fn lemma_pieces_nonempty(s: Seq<char>)
    ensures
        pieces(s).len() >= 1,
    decreases s.len(),
{
    if s.len() > 0 {
        lemma_pieces_nonempty(s.drop_last());
    }
}

/// The value of a hexadecimal digit.
pub open spec fn hex_digit(c: char) -> Option<nat> {
    if '0' <= c && c <= '9' {
        Some((c as nat - '0' as nat) as nat)
    } else if 'a' <= c && c <= 'f' {
        Some((c as nat - 'a' as nat + 10) as nat)
    } else if 'A' <= c && c <= 'F' {
        Some((c as nat - 'A' as nat + 10) as nat)
    } else {
        None
    }
}

/// Whether every character is a hexadecimal digit.
pub open spec fn all_hex(d: Seq<char>) -> bool {
    forall|i: int| 0 <= i < d.len() ==> (#[trigger] hex_digit(d[i])) is Some
}

/// The number that hexadecimal digits write.
pub open spec fn hex_value(d: Seq<char>) -> nat
    decreases d.len(),
{
    if d.len() == 0 {
        0
    } else {
        hex_value(d.drop_last()) * 16 + match hex_digit(d.last()) {
            Some(v) => v,
            None => 0,
        }
    }
}

/// The digits of a number text: without a leading `+`.
pub open spec fn unsigned_digits(s: Seq<char>) -> Seq<char> {
    if s.len() > 0 && s[0] == '+' { s.drop_first() } else { s }
}

/// The 64-bit number a hexadecimal text writes (`u64::from_str_radix`
/// with radix 16): an optional `+`, then at least one digit, and a value
/// that fits; `None` otherwise.
pub open spec fn parse_hex(s: Seq<char>) -> Option<u64> {
    let d = unsigned_digits(s);
    if d.len() > 0 && all_hex(d) && hex_value(d) <= u64::MAX {
        Some(hex_value(d) as u64)
    } else {
        None
    }
}

proof fn lemma_hex_value_grows(d: Seq<char>, j: int, k: int)
    requires
        0 <= j <= k <= d.len(),
    ensures
        hex_value(d.take(j)) <= hex_value(d.take(k)),
    decreases k - j,
{
    if j < k {
        lemma_hex_value_grows(d, j, k - 1);
        assert(d.take(k).drop_last() =~= d.take(k - 1));
    }
}

fn hex_of(c: char) -> (r: Option<u64>)
    ensures
        r matches Some(v) ==> hex_digit(c) == Some(v as nat) && v < 16,
        r is None ==> hex_digit(c) is None,
{
    if '0' <= c && c <= '9' {
        Some((c as u32 - '0' as u32) as u64)
    } else if 'a' <= c && c <= 'f' {
        Some((c as u32 - 'a' as u32 + 10) as u64)
    } else if 'A' <= c && c <= 'F' {
        Some((c as u32 - 'A' as u32 + 10) as u64)
    } else {
        None
    }
}

/// The 64-bit number a hexadecimal text writes, if it writes one.
pub fn parse_hex_u64(s: &Vec<char>) -> (r: Option<u64>)
    ensures
        r == parse_hex(s@),
{
    let start: usize = if s.len() > 0 && s[0] == '+' { 1 } else { 0 };
    let ghost d = unsigned_digits(s@);
    assert(d =~= s@.subrange(start as int, s@.len() as int));
    if start >= s.len() {
        return None;
    }
    let mut acc: u64 = 0;
    let mut i: usize = start;
    while i < s.len()
        invariant
            start <= i <= s@.len(),
            d == unsigned_digits(s@),
            d == s@.subrange(start as int, s@.len() as int),
            all_hex(d.take(i - start)),
            acc == hex_value(d.take(i - start)),
        decreases s.len() - i,
    {
        let k: Ghost<int> = Ghost(i - start);
        assert(d.take(k@ + 1).drop_last() =~= d.take(k@));
        assert(d[k@] == s@[i as int]);
        match hex_of(s[i]) {
            None => {
                assert(hex_digit(d[k@]) is None);
                assert(!all_hex(d));
                return None;
            },
            Some(v) => {
                if acc > (u64::MAX - v) / 16 {
                    proof {
                        assert(hex_value(d.take(k@ + 1)) == acc * 16 + v);
                        assert(acc * 16 + v > u64::MAX) by (nonlinear_arith)
                            requires
                                acc > (u64::MAX - v) / 16,
                                v < 16;
                        lemma_hex_value_grows(d, k@ + 1, d.len() as int);
                        assert(d.take(d.len() as int) =~= d);
                    }
                    return None;
                }
                assert(acc * 16 + v <= u64::MAX) by (nonlinear_arith)
                    requires
                        acc <= (u64::MAX - v) / 16,
                        v < 16;
                acc = acc * 16 + v;
                proof {
                    assert forall|q: int| 0 <= q < d.take(k@ + 1).len() implies (#[trigger] hex_digit(d.take(k@ + 1)[q])) is Some by {
                        if q < k@ {
                            assert(d.take(k@ + 1)[q] == d.take(k@)[q]);
                        }
                    }
                }
            },
        }
        i += 1;
    }
    assert(d.take(i - start) =~= d);
    Some(acc)
}

/// The value of a decimal digit.
pub open spec fn dec_digit(c: char) -> Option<nat> {
    if '0' <= c && c <= '9' {
        Some((c as nat - '0' as nat) as nat)
    } else {
        None
    }
}

/// Whether every character is a decimal digit.
pub open spec fn all_dec(d: Seq<char>) -> bool {
    forall|i: int| 0 <= i < d.len() ==> (#[trigger] dec_digit(d[i])) is Some
}

/// The number that decimal digits write.
pub open spec fn dec_value(d: Seq<char>) -> nat
    decreases d.len(),
{
    if d.len() == 0 {
        0
    } else {
        dec_value(d.drop_last()) * 10 + match dec_digit(d.last()) {
            Some(v) => v,
            None => 0,
        }
    }
}

/// The 64-bit number a decimal text writes (`str::parse::<u64>`): an
/// optional `+`, then at least one digit, and a value that fits; `None`
/// otherwise.
pub open spec fn parse_dec(s: Seq<char>) -> Option<u64> {
    let d = unsigned_digits(s);
    if d.len() > 0 && all_dec(d) && dec_value(d) <= u64::MAX {
        Some(dec_value(d) as u64)
    } else {
        None
    }
}

/// The 32-bit number a decimal text writes (`str::parse::<u32>`).
pub open spec fn parse_dec32(s: Seq<char>) -> Option<u32> {
    match parse_dec(s) {
        Some(v) => if v <= u32::MAX { Some(v as u32) } else { None },
        None => None,
    }
}

proof fn lemma_dec_value_grows(d: Seq<char>, j: int, k: int)
    requires
        0 <= j <= k <= d.len(),
    ensures
        dec_value(d.take(j)) <= dec_value(d.take(k)),
    decreases k - j,
{
    if j < k {
        lemma_dec_value_grows(d, j, k - 1);
        assert(d.take(k).drop_last() =~= d.take(k - 1));
    }
}

fn dec_of(c: char) -> (r: Option<u64>)
    ensures
        r matches Some(v) ==> dec_digit(c) == Some(v as nat) && v < 10,
        r is None ==> dec_digit(c) is None,
{
    if '0' <= c && c <= '9' {
        Some((c as u32 - '0' as u32) as u64)
    } else {
        None
    }
}

/// The 64-bit number a decimal text writes, if it writes one.
pub fn parse_dec_u64(s: &Vec<char>) -> (r: Option<u64>)
    ensures
        r == parse_dec(s@),
{
    let start: usize = if s.len() > 0 && s[0] == '+' { 1 } else { 0 };
    let ghost d = unsigned_digits(s@);
    assert(d =~= s@.subrange(start as int, s@.len() as int));
    if start >= s.len() {
        return None;
    }
    let mut acc: u64 = 0;
    let mut i: usize = start;
    while i < s.len()
        invariant
            start <= i <= s@.len(),
            d == unsigned_digits(s@),
            d == s@.subrange(start as int, s@.len() as int),
            all_dec(d.take(i - start)),
            acc == dec_value(d.take(i - start)),
        decreases s.len() - i,
    {
        let k: Ghost<int> = Ghost(i - start);
        assert(d.take(k@ + 1).drop_last() =~= d.take(k@));
        assert(d[k@] == s@[i as int]);
        match dec_of(s[i]) {
            None => {
                assert(dec_digit(d[k@]) is None);
                assert(!all_dec(d));
                return None;
            },
            Some(v) => {
                if acc > (u64::MAX - v) / 10 {
                    proof {
                        assert(dec_value(d.take(k@ + 1)) == acc * 10 + v);
                        assert(acc * 10 + v > u64::MAX) by (nonlinear_arith)
                            requires
                                acc > (u64::MAX - v) / 10,
                                v < 10;
                        lemma_dec_value_grows(d, k@ + 1, d.len() as int);
                        assert(d.take(d.len() as int) =~= d);
                    }
                    return None;
                }
                assert(acc * 10 + v <= u64::MAX) by (nonlinear_arith)
                    requires
                        acc <= (u64::MAX - v) / 10,
                        v < 10;
                acc = acc * 10 + v;
                proof {
                    assert forall|q: int| 0 <= q < d.take(k@ + 1).len() implies (#[trigger] dec_digit(d.take(k@ + 1)[q])) is Some by {
                        if q < k@ {
                            assert(d.take(k@ + 1)[q] == d.take(k@)[q]);
                        }
                    }
                }
            },
        }
        i += 1;
    }
    assert(d.take(i - start) =~= d);
    Some(acc)
}

/// The 32-bit number a decimal text writes, if it writes one.
pub fn parse_dec_u32(s: &Vec<char>) -> (r: Option<u32>)
    ensures
        r == parse_dec32(s@),
{
    match parse_dec_u64(s) {
        Some(v) => if v <= 0xffff_ffff { Some(v as u32) } else { None },
        None => None,
    }
}

/// Removes the leading `[`s and trailing `]`s of a module name.
pub open spec fn trim_brackets(s: Seq<char>) -> Seq<char> {
    trim_close(trim_open(s))
}

/// The text without its leading `[`s.
pub open spec fn trim_open(s: Seq<char>) -> Seq<char>
    decreases s.len(),
{
    if s.len() > 0 && s[0] == '[' { trim_open(s.drop_first()) } else { s }
}

/// The text without its trailing `]`s.
pub open spec fn trim_close(s: Seq<char>) -> Seq<char>
    decreases s.len(),
{
    if s.len() > 0 && s.last() == ']' { trim_close(s.drop_last()) } else { s }
}

/// The symbol a line of `/proc/kallsyms` describes, when it has at least
/// three words: address (0 when it is not a 64-bit hexadecimal number),
/// type, name and, in brackets, the module.
pub open spec fn line_symbol(line: Seq<char>) -> Option<SymbolModel> {
    let w = words(line);
    if w.len() >= 3 {
        let module = if w.len() > 3 { trim_brackets(w[3]) } else { Seq::empty() };
        Some(SymbolModel {
            name: w[2],
            address: match parse_hex(w[0]) { Some(a) => a, None => 0 },
            size: 0,
            module: if module.len() == 0 { None } else { Some(module) },
            is_function: w[1] == "T"@ || w[1] == "t"@,
        })
    } else {
        None
    }
}

/// The table that the first `n` lines build.
pub open spec fn table_of_lines(lines: Seq<Seq<char>>, n: int) -> Seq<SymbolModel>
    decreases n,
{
    if n <= 0 {
        Seq::empty()
    } else {
        let t = table_of_lines(lines, n - 1);
        match line_symbol(lines[n - 1]) {
            Some(m) => sym_put(t, m),
            None => t,
        }
    }
}

/// The table that the text of `/proc/kallsyms` describes.
pub open spec fn kallsyms_table(content: Seq<char>) -> Seq<SymbolModel> {
    table_of_lines(pieces(content), pieces(content).len() as int)
}

/// The differences between two symbol tables.
#[derive(Debug)]
pub struct SymbolDiff {
    pub added: Vec<String>,
    pub removed: Vec<String>,
    pub modified: Vec<String>,
}

impl SymbolDiff {
    /// Whether anything was added, removed or moved.
    pub open spec fn changed(&self) -> bool {
        self.added@.len() > 0 || self.removed@.len() > 0 || self.modified@.len() > 0
    }

    /// Whether anything was added, removed or moved.
    pub fn has_changes(&self) -> (b: bool)
        ensures
            b == self.changed(),
    {
        !self.added.is_empty() || !self.removed.is_empty() || !self.modified.is_empty()
    }
}

/// The names of `b`'s symbols that `a` lacks, in `b`'s order.
pub open spec fn names_added(a: Seq<SymbolModel>, b: Seq<SymbolModel>) -> Seq<Seq<char>>
    decreases b.len(),
{
    if b.len() == 0 {
        Seq::empty()
    } else if sym_pos(a, b.last().name) is None {
        names_added(a, b.drop_last()).push(b.last().name)
    } else {
        names_added(a, b.drop_last())
    }
}

/// The names of `b`'s symbols that `a` has at another address, in `b`'s
/// order.
pub open spec fn names_moved(a: Seq<SymbolModel>, b: Seq<SymbolModel>) -> Seq<Seq<char>>
    decreases b.len(),
{
    if b.len() == 0 {
        Seq::empty()
    } else if sym_pos(a, b.last().name) matches Some(i) && a[i].address != b.last().address {
        names_moved(a, b.drop_last()).push(b.last().name)
    } else {
        names_moved(a, b.drop_last())
    }
}

/// The kernel's symbols by name, in the order their names first came.
pub struct KernelSymbolTable {
    symbols: Vec<KernelSymbol>,
}

impl KernelSymbolTable {
    #[verifier::type_invariant]
    closed spec fn inv(self) -> bool {
        names_distinct(symbols_view(self.symbols@))
    }

    /// The symbols.
    pub closed spec fn entries(&self) -> Seq<SymbolModel> {
        symbols_view(self.symbols@)
    }

    /// An empty table.
    pub fn new() -> (t: KernelSymbolTable)
        ensures
            t.entries().len() == 0,
    {
        let t = KernelSymbolTable { symbols: Vec::new() };
        assert(t.entries() =~= Seq::<SymbolModel>::empty());
        t
    }

    fn find(&self, name: &str) -> (r: Option<usize>)
        ensures
            r matches Some(i) ==> i < self.entries().len() && sym_pos(self.entries(), name@) == Some(i as int),
            r is None ==> sym_pos(self.entries(), name@) is None,
    {
        proof {
            use_type_invariant(self);
        }
        let ghost s = self.entries();
        let mut i: usize = 0;
        while i < self.symbols.len()
            invariant
                i <= self.symbols@.len(),
                s == self.entries(),
                names_distinct(s),
                forall|j: int| 0 <= j < i ==> s[j].name != name@,
            decreases self.symbols.len() - i,
        {
            if str_eq(self.symbols[i].name.as_str(), name) {
                proof {
                    assert(s[i as int].name == name@);
                    let w = choose|w: int| 0 <= w < s.len() && s[w].name == name@;
                    if w != i {
                        assert(s[w].name != s[i as int].name);
                    }
                }
                return Some(i);
            }
            i += 1;
        }
        None
    }

    /// Stores a symbol under its name, replacing one of the same name.
    pub fn insert(&mut self, symbol: KernelSymbol)
        ensures
            final(self).entries() == sym_put(old(self).entries(), symbol@),
    {
        proof {
            use_type_invariant(&*self);
        }
        let ghost before = self.entries();
        let ghost m = symbol@;
        let found = self.find(symbol.name.as_str());
        let mut v: Vec<KernelSymbol> = Vec::new();
        std::mem::swap(&mut v, &mut self.symbols);
        match found {
            Some(i) => {
                v.set(i, symbol);
                assert(symbols_view(v@) =~= before.update(i as int, m));
                proof {
                    let after = symbols_view(v@);
                    assert forall|a: int, b: int| 0 <= a < after.len() && 0 <= b < after.len() && a != b implies
                        after[a].name != after[b].name by {
                        if a != i {
                            assert(after[a] == before[a]);
                        }
                        if b != i {
                            assert(after[b] == before[b]);
                        }
                    }
                }
            },
            None => {
                v.push(symbol);
                assert(symbols_view(v@) =~= before.push(m));
                proof {
                    let after = symbols_view(v@);
                    assert forall|a: int, b: int| 0 <= a < after.len() && 0 <= b < after.len() && a != b implies
                        after[a].name != after[b].name by {
                        if a < before.len() {
                            assert(after[a] == before[a]);
                        }
                        if b < before.len() {
                            assert(after[b] == before[b]);
                        }
                    }
                }
            },
        }
        self.symbols = v;
    }

    /// The table that the text of `/proc/kallsyms` describes: one symbol
    /// per line with at least three words, a later line replacing an
    /// earlier one of the same name.
    pub fn parse_kallsyms(content: &str) -> (t: KernelSymbolTable)
        ensures
            t.entries() == kallsyms_table(content@),
            forall|k: int| 0 <= k < t.entries().len() ==> exists|i: int|
                0 <= i < pieces(content@).len()
                && words(pieces(content@)[i]).len() >= 3
                && words(pieces(content@)[i])[2] == (#[trigger] t.entries()[k]).name
                && (t.entries()[k].is_function <==> text_type(words(pieces(content@)[i])[1])),
    {
        proof {
            lemma_kallsyms_functions(content@);
        }
        let lines = split_lines(content);
        let ghost ls = pieces(content@);
        let mut t = KernelSymbolTable::new();
        let mut i: usize = 0;
        while i < lines.len()
            invariant
                i <= lines@.len(),
                lines@.len() == ls.len(),
                forall|k: int| 0 <= k < lines@.len() ==> lines@[k]@ == ls[k],
                t.entries() == table_of_lines(ls, i as int),
            decreases lines.len() - i,
        {
            match parse_line(&lines[i]) {
                Some(sym) => {
                    t.insert(sym);
                },
                None => {},
            }
            i += 1;
        }
        t
    }

    /// The symbol named `name`.
    pub fn get_symbol(&self, name: &str) -> (r: Option<&KernelSymbol>)
        ensures
            sym_pos(self.entries(), name@) matches Some(i) ==> (r matches Some(s) && s@ == self.entries()[i]),
            sym_pos(self.entries(), name@) is None ==> r is None,
    {
        match self.find(name) {
            Some(i) => Some(&self.symbols[i]),
            None => None,
        }
    }

    /// All symbols.
    pub fn get_all(&self) -> (r: &[KernelSymbol])
        ensures
            symbols_view(r@) == self.entries(),
    {
        self.symbols.as_slice()
    }

    /// The number of symbols.
    pub fn count(&self) -> (n: usize)
        ensures
            n == self.entries().len(),
    {
        self.symbols.len()
    }

    /// What changed from this table to `other`: the names only `other`
    /// has, the names only this table has, and the names both have at
    /// different addresses.
    pub fn diff(&self, other: &KernelSymbolTable) -> (d: SymbolDiff)
        ensures
            strings_view(d.added@) == names_added(self.entries(), other.entries()),
            strings_view(d.removed@) == names_added(other.entries(), self.entries()),
            strings_view(d.modified@) == names_moved(self.entries(), other.entries()),
            self.entries() == other.entries() ==> !d.changed(),
            names_distinct(self.entries()),
            names_distinct(other.entries()),
            forall|n: Seq<char>| #[trigger] strings_view(d.added@).contains(n)
                <==> named_in(other.entries(), n) && !named_in(self.entries(), n),
            forall|n: Seq<char>| #[trigger] strings_view(d.removed@).contains(n)
                <==> named_in(self.entries(), n) && !named_in(other.entries(), n),
            forall|n: Seq<char>| #[trigger] strings_view(d.modified@).contains(n)
                <==> moved_between(self.entries(), other.entries(), n),
            strings_view(d.added@).no_duplicates(),
            strings_view(d.removed@).no_duplicates(),
            strings_view(d.modified@).no_duplicates(),
    {
        proof {
            use_type_invariant(self);
            use_type_invariant(other);
            lemma_diff_self_empty(self.entries());
            lemma_diff_as_sets(self.entries(), other.entries());
        }
        let ghost a = self.entries();
        let ghost b = other.entries();
        let mut added: Vec<String> = Vec::new();
        let mut modified: Vec<String> = Vec::new();
        let mut i: usize = 0;
        while i < other.symbols.len()
            invariant
                i <= other.symbols@.len(),
                a == self.entries(),
                b == other.entries(),
                strings_view(added@) == names_added(a, b.take(i as int)),
                strings_view(modified@) == names_moved(a, b.take(i as int)),
            decreases other.symbols.len() - i,
        {
            let sym = &other.symbols[i];
            assert(b.take(i + 1).drop_last() =~= b.take(i as int));
            assert(b[i as int] == sym@);
            match self.find(sym.name.as_str()) {
                Some(k) => {
                    if self.symbols[k].address != sym.address {
                        let ghost before = strings_view(modified@);
                        modified.push(sym.name.clone());
                        assert(strings_view(modified@) =~= before.push(sym@.name));
                    }
                },
                None => {
                    let ghost before = strings_view(added@);
                    added.push(sym.name.clone());
                    assert(strings_view(added@) =~= before.push(sym@.name));
                },
            }
            i += 1;
        }
        assert(b.take(other.symbols.len() as int) =~= b);
        let mut removed: Vec<String> = Vec::new();
        let mut i: usize = 0;
        while i < self.symbols.len()
            invariant
                i <= self.symbols@.len(),
                a == self.entries(),
                b == other.entries(),
                strings_view(removed@) == names_added(b, a.take(i as int)),
            decreases self.symbols.len() - i,
        {
            let sym = &self.symbols[i];
            assert(a.take(i + 1).drop_last() =~= a.take(i as int));
            assert(a[i as int] == sym@);
            if other.find(sym.name.as_str()).is_none() {
                let ghost before = strings_view(removed@);
                removed.push(sym.name.clone());
                assert(strings_view(removed@) =~= before.push(sym@.name));
            }
            i += 1;
        }
        assert(a.take(self.symbols.len() as int) =~= a);
        SymbolDiff { added, removed, modified }
    }
}

impl Default for KernelSymbolTable {
    fn default() -> (t: KernelSymbolTable)
        ensures
            t.entries().len() == 0,
    {
        KernelSymbolTable::new()
    }
}

/// The pieces of a text between newlines.
pub(crate) fn split_lines(content: &str) -> (r: Vec<Vec<char>>)
    ensures
        r@.len() == pieces(content@).len(),
        forall|k: int| 0 <= k < r@.len() ==> r@[k]@ == pieces(content@)[k],
{
    let v = chars_of(content);
    let mut r: Vec<Vec<char>> = Vec::new();
    let mut cur: Vec<char> = Vec::new();
    let mut i: usize = 0;
    while i < v.len()
        invariant
            i <= v@.len(),
            v@ == content@,
            r@.len() + 1 == pieces(v@.take(i as int)).len(),
            forall|k: int| 0 <= k < r@.len() ==> r@[k]@ == pieces(v@.take(i as int))[k],
            cur@ == pieces(v@.take(i as int)).last(),
        decreases v.len() - i,
    {
        let c = v[i];
        assert(v@.take(i + 1).drop_last() =~= v@.take(i as int));
        proof {
            lemma_pieces_nonempty(v@.take(i as int));
        }
        if c == '\n' {
            let mut done: Vec<char> = Vec::new();
            std::mem::swap(&mut done, &mut cur);
            r.push(done);
        } else {
            cur.push(c);
        }
        i += 1;
    }
    assert(v@.take(v.len() as int) =~= v@);
    r.push(cur);
    r
}

/// A line without the carriage return that ends it, if one does.
pub open spec fn strip_cr(l: Seq<char>) -> Seq<char> {
    if l.len() > 0 && l.last() == '\r' { l.drop_last() } else { l }
}

/// The lines of a text, as `str::lines` gives them: the pieces between
/// newlines, each that a newline ends without a carriage return before
/// it, and no last empty piece.
pub open spec fn text_lines(s: Seq<char>) -> Seq<Seq<char>> {
    let p = pieces(s);
    let body = p.drop_last().map_values(|l: Seq<char>| strip_cr(l));
    if p.last().len() == 0 { body } else { body.push(p.last()) }
}

/// The characters of `v` from `start` up to `end`.
pub(crate) fn chars_range(v: &Vec<char>, start: usize, end: usize) -> (r: Vec<char>)
    requires
        start <= end <= v@.len(),
    ensures
        r@ == v@.subrange(start as int, end as int),
{
    let mut r: Vec<char> = Vec::new();
    let mut k: usize = start;
    while k < end
        invariant
            start <= k <= end <= v@.len(),
            r@ == v@.subrange(start as int, k as int),
        decreases end - k,
    {
        r.push(v[k]);
        assert(v@.subrange(start as int, k as int).push(v@[k as int]) =~= v@.subrange(start as int, k + 1));
        k += 1;
    }
    r
}

/// The lines of a text, as `str::lines` gives them.
pub(crate) fn lines_of(content: &str) -> (r: Vec<Vec<char>>)
    ensures
        r@.len() == text_lines(content@).len(),
        forall|k: int| 0 <= k < r@.len() ==> r@[k]@ == text_lines(content@)[k],
{
    let p = split_lines(content);
    proof {
        lemma_pieces_nonempty(content@);
    }
    let ghost ps = pieces(content@);
    let n = p.len();
    let mut r: Vec<Vec<char>> = Vec::new();
    let mut i: usize = 0;
    while i + 1 < n
        invariant
            n == p@.len() == ps.len() >= 1,
            forall|k: int| 0 <= k < p@.len() ==> p@[k]@ == ps[k],
            i + 1 <= n,
            r@.len() == i,
            forall|k: int| 0 <= k < i ==> r@[k]@ == strip_cr(ps[k]),
        decreases n - i,
    {
        let l = &p[i];
        let end = if l.len() > 0 && l[l.len() - 1] == '\r' { l.len() - 1 } else { l.len() };
        let c = chars_range(l, 0, end);
        proof {
            assert(l@ == ps[i as int]);
            if l@.len() > 0 && l@.last() == '\r' {
                assert(c@ =~= l@.drop_last());
            } else {
                assert(c@ =~= l@);
            }
        }
        r.push(c);
        i += 1;
    }
    let last = &p[n - 1];
    let ghost body = ps.drop_last().map_values(|l: Seq<char>| strip_cr(l));
    assert(body.len() == r@.len());
    if last.len() > 0 {
        let c = chars_range(last, 0, last.len());
        assert(c@ =~= ps.last());
        r.push(c);
    }
    proof {
        assert forall|k: int| 0 <= k < r@.len() implies r@[k]@ == text_lines(content@)[k] by {
            if k < n - 1 {
                assert(body[k] == strip_cr(ps[k]));
            }
        }
    }
    r
}

/// The words of a line.
pub(crate) fn split_words(line: &Vec<char>) -> (r: Vec<Vec<char>>)
    ensures
        r@.len() == words(line@).len(),
        forall|k: int| 0 <= k < r@.len() ==> r@[k]@ == words(line@)[k],
{
    let mut r: Vec<Vec<char>> = Vec::new();
    let mut cur: Vec<char> = Vec::new();
    let mut i: usize = 0;
    while i < line.len()
        invariant
            i <= line@.len(),
            cur@.len() > 0 ==> i > 0 && !is_space(line@[i - 1]),
            cur@.len() == 0 ==> (i == 0 || is_space(line@[i - 1])),
            r@.len() + (if cur@.len() > 0 { 1int } else { 0int }) == words(line@.take(i as int)).len(),
            forall|k: int| 0 <= k < r@.len() ==> r@[k]@ == words(line@.take(i as int))[k],
            cur@.len() > 0 ==> cur@ == words(line@.take(i as int)).last(),
        decreases line.len() - i,
    {
        let c = line[i];
        let ghost p = line@.take(i as int);
        assert(line@.take(i + 1).drop_last() =~= p);
        assert(line@.take(i + 1).last() == c);
        if space(c) {
            if cur.len() > 0 {
                let mut done: Vec<char> = Vec::new();
                std::mem::swap(&mut done, &mut cur);
                r.push(done);
            }
        } else {
            if i > 0 {
                assert(p.last() == line@[i - 1]);
            }
            cur.push(c);
        }
        i += 1;
    }
    if cur.len() > 0 {
        r.push(cur);
    }
    assert(line@.take(line.len() as int) =~= line@);
    r
}

fn trim_brackets_of(s: &Vec<char>) -> (r: Vec<char>)
    ensures
        r@ == trim_brackets(s@),
{
    let mut start: usize = 0;
    assert(s@.subrange(0, s@.len() as int) =~= s@);
    while start < s.len() && s[start] == '['
        invariant
            start <= s@.len(),
            trim_open(s@) == trim_open(s@.subrange(start as int, s@.len() as int)),
        decreases s.len() - start,
    {
        assert(s@.subrange(start as int, s@.len() as int).drop_first() =~= s@.subrange(start + 1, s@.len() as int));
        start += 1;
    }
    let mut end: usize = s.len();
    assert(s@.subrange(start as int, s@.len() as int) =~= s@.subrange(start as int, end as int));
    while end > start && s[end - 1] == ']'
        invariant
            start <= end <= s@.len(),
            trim_open(s@) == s@.subrange(start as int, s@.len() as int),
            trim_close(trim_open(s@)) == trim_close(s@.subrange(start as int, end as int)),
        decreases end,
    {
        assert(s@.subrange(start as int, end as int).drop_last() =~= s@.subrange(start as int, end - 1));
        end -= 1;
    }
    let mut r: Vec<char> = Vec::new();
    let mut k: usize = start;
    while k < end
        invariant
            start <= k <= end <= s@.len(),
            r@ == s@.subrange(start as int, k as int),
        decreases end - k,
    {
        r.push(s[k]);
        assert(s@.subrange(start as int, k as int).push(s@[k as int]) =~= s@.subrange(start as int, k + 1));
        k += 1;
    }
    r
}

pub(crate) fn chars_eq(v: &Vec<char>, s: &str) -> (b: bool)
    ensures
        b == (v@ == s@),
{
    let t = string_from_chars(v);
    str_eq(t.as_str(), s)
}

/// The symbol a line of `/proc/kallsyms` describes, if it has at least
/// three words.
fn parse_line(line: &Vec<char>) -> (r: Option<KernelSymbol>)
    ensures
        r matches Some(s) ==> line_symbol(line@) == Some(s@),
        r is None ==> line_symbol(line@) is None,
{
    let w = split_words(line);
    if w.len() < 3 {
        return None;
    }
    let address = match parse_hex_u64(&w[0]) {
        Some(a) => a,
        None => 0,
    };
    let module_chars = if w.len() > 3 { trim_brackets_of(&w[3]) } else { Vec::new() };
    let module = if module_chars.len() == 0 { None } else { Some(string_from_chars(&module_chars)) };
    let is_function = chars_eq(&w[1], "T") || chars_eq(&w[1], "t");
    let s = KernelSymbol { name: string_from_chars(&w[2]), address, size: 0, module, is_function };
    proof {
        let ws = words(line@);
        assert(w@[0]@ == ws[0]);
        assert(w@[1]@ == ws[1]);
        assert(w@[2]@ == ws[2]);
        if w@.len() > 3 {
            assert(w@[3]@ == ws[3]);
        }
    }
    Some(s)
}

/// Comparing a table with itself finds no change.
pub proof fn lemma_diff_self_empty(a: Seq<SymbolModel>)
    requires
        names_distinct(a),
    ensures
        names_added(a, a).len() == 0,
        names_moved(a, a).len() == 0,
{
    lemma_added_none(a, a);
    lemma_moved_none(a, a);
}

proof fn lemma_added_none(a: Seq<SymbolModel>, b: Seq<SymbolModel>)
    requires
        forall|j: int| 0 <= j < b.len() ==> a.contains(#[trigger] b[j]),
    ensures
        names_added(a, b).len() == 0,
    decreases b.len(),
{
    if b.len() > 0 {
        let d = b.drop_last();
        assert forall|j: int| 0 <= j < d.len() implies a.contains(#[trigger] d[j]) by {
            assert(d[j] == b[j]);
        }
        lemma_added_none(a, d);
        assert(a.contains(b[b.len() - 1]));
        let k = choose|k: int| 0 <= k < a.len() && a[k] == b[b.len() - 1];
        assert(a[k].name == b.last().name);
    }
}

proof fn lemma_moved_none(a: Seq<SymbolModel>, b: Seq<SymbolModel>)
    requires
        names_distinct(a),
        forall|j: int| 0 <= j < b.len() ==> a.contains(#[trigger] b[j]),
    ensures
        names_moved(a, b).len() == 0,
    decreases b.len(),
{
    if b.len() > 0 {
        let d = b.drop_last();
        assert forall|j: int| 0 <= j < d.len() implies a.contains(#[trigger] d[j]) by {
            assert(d[j] == b[j]);
        }
        lemma_moved_none(a, d);
        assert(a.contains(b[b.len() - 1]));
        let k = choose|k: int| 0 <= k < a.len() && a[k] == b[b.len() - 1];
        assert(a[k].name == b.last().name);
        let i = choose|i: int| 0 <= i < a.len() && a[i].name == b.last().name;
        if i != k {
            assert(a[i].name != a[k].name);
        }
    }
}


/// Whether some symbol of `s` is named `n`.
pub open spec fn named_in(s: Seq<SymbolModel>, n: Seq<char>) -> bool {
    exists|i: int| 0 <= i < s.len() && s[i].name == n
}

/// Whether `a` and `b` both have a symbol named `n`, at different
/// addresses.
pub open spec fn moved_between(a: Seq<SymbolModel>, b: Seq<SymbolModel>, n: Seq<char>) -> bool {
    exists|i: int, j: int|
        0 <= i < a.len() && 0 <= j < b.len() && a[i].name == n && b[j].name == n && a[i].address != b[j].address
}

/// The differences between two tables, as sets: a name is added exactly
/// when only the second table has it, removed exactly when only the first
/// has it, and moved exactly when both have it at different addresses;
/// no name is listed twice.
pub proof fn lemma_diff_as_sets(a: Seq<SymbolModel>, b: Seq<SymbolModel>)
    requires
        names_distinct(a),
        names_distinct(b),
    ensures
        forall|n: Seq<char>| #[trigger] names_added(a, b).contains(n) <==> named_in(b, n) && !named_in(a, n),
        forall|n: Seq<char>| #[trigger] names_added(b, a).contains(n) <==> named_in(a, n) && !named_in(b, n),
        forall|n: Seq<char>| #[trigger] names_moved(a, b).contains(n) <==> moved_between(a, b, n),
        names_added(a, b).no_duplicates(),
        names_added(b, a).no_duplicates(),
        names_moved(a, b).no_duplicates(),
{
    assert forall|n: Seq<char>| #[trigger] names_added(a, b).contains(n) <==> named_in(b, n) && !named_in(a, n) by {
        lemma_added_members(a, b, n);
    }
    assert forall|n: Seq<char>| #[trigger] names_added(b, a).contains(n) <==> named_in(a, n) && !named_in(b, n) by {
        lemma_added_members(b, a, n);
    }
    assert forall|n: Seq<char>| #[trigger] names_moved(a, b).contains(n) <==> moved_between(a, b, n) by {
        lemma_moved_members(a, b, n);
    }
    lemma_added_unique(a, b);
    lemma_added_unique(b, a);
    lemma_moved_unique(a, b);
}

proof fn lemma_named_last(b: Seq<SymbolModel>, n: Seq<char>)
    requires
        b.len() > 0,
    ensures
        named_in(b, n) <==> named_in(b.drop_last(), n) || b.last().name == n,
{
    let d = b.drop_last();
    if named_in(d, n) {
        let j = choose|j: int| 0 <= j < d.len() && d[j].name == n;
        assert(b[j].name == n);
    }
    if b.last().name == n {
        assert(b[b.len() - 1].name == n);
    }
    if named_in(b, n) && b.last().name != n {
        let j = choose|j: int| 0 <= j < b.len() && b[j].name == n;
        assert(d[j].name == n);
    }
}

proof fn lemma_added_members(a: Seq<SymbolModel>, b: Seq<SymbolModel>, n: Seq<char>)
    ensures
        names_added(a, b).contains(n) <==> named_in(b, n) && !named_in(a, n),
    decreases b.len(),
{
    if b.len() > 0 {
        let d = b.drop_last();
        lemma_added_members(a, d, n);
        lemma_named_last(b, n);
        if sym_pos(a, b.last().name) is None {
            assert(names_added(a, b) == names_added(a, d).push(b.last().name));
            assert(names_added(a, b).contains(n) <==> names_added(a, d).contains(n) || b.last().name == n) by {
                if names_added(a, b).contains(n) {
                    let k = choose|k: int| 0 <= k < names_added(a, b).len() && names_added(a, b)[k] == n;
                    if k < names_added(a, d).len() {
                        assert(names_added(a, d)[k] == n);
                    }
                }
                if names_added(a, d).contains(n) {
                    let k = choose|k: int| 0 <= k < names_added(a, d).len() && names_added(a, d)[k] == n;
                    assert(names_added(a, b)[k] == n);
                }
                if b.last().name == n {
                    assert(names_added(a, b)[names_added(a, d).len() as int] == n);
                }
            }
        } else {
            if b.last().name == n {
                let i = choose|i: int| 0 <= i < a.len() && a[i].name == b.last().name;
                assert(named_in(a, n));
            }
        }
    } else {
        assert(names_added(a, b).len() == 0);
    }
}

proof fn lemma_moved_members(a: Seq<SymbolModel>, b: Seq<SymbolModel>, n: Seq<char>)
    requires
        names_distinct(a),
    ensures
        names_moved(a, b).contains(n) <==> moved_between(a, b, n),
    decreases b.len(),
{
    if b.len() > 0 {
        let d = b.drop_last();
        lemma_moved_members(a, d, n);
        let last = b.last();
        let pushed = sym_pos(a, last.name) matches Some(i) && a[i].address != last.address;
        assert(names_moved(a, b).contains(n) <==> names_moved(a, d).contains(n) || (pushed && last.name == n)) by {
            if pushed {
                assert(names_moved(a, b) == names_moved(a, d).push(last.name));
                if names_moved(a, b).contains(n) {
                    let k = choose|k: int| 0 <= k < names_moved(a, b).len() && names_moved(a, b)[k] == n;
                    if k < names_moved(a, d).len() {
                        assert(names_moved(a, d)[k] == n);
                    }
                }
                if names_moved(a, d).contains(n) {
                    let k = choose|k: int| 0 <= k < names_moved(a, d).len() && names_moved(a, d)[k] == n;
                    assert(names_moved(a, b)[k] == n);
                }
                if last.name == n {
                    assert(names_moved(a, b)[names_moved(a, d).len() as int] == n);
                }
            } else {
                assert(names_moved(a, b) == names_moved(a, d));
            }
        }
        assert(moved_between(a, b, n) <==> moved_between(a, d, n) || (pushed && last.name == n)) by {
            if moved_between(a, d, n) {
                let (i, j) = choose|i: int, j: int|
                    0 <= i < a.len() && 0 <= j < d.len() && a[i].name == n && d[j].name == n && a[i].address != d[j].address;
                assert(b[j] == d[j]);
            }
            if pushed && last.name == n {
                let i = sym_pos(a, last.name)->0;
                assert(b[b.len() - 1] == last);
            }
            if moved_between(a, b, n) && !moved_between(a, d, n) {
                let (i, j) = choose|i: int, j: int|
                    0 <= i < a.len() && 0 <= j < b.len() && a[i].name == n && b[j].name == n && a[i].address != b[j].address;
                if j < d.len() {
                    assert(d[j] == b[j]);
                    assert(false);
                }
                assert(b[j] == last);
                let k = choose|k: int| 0 <= k < a.len() && a[k].name == last.name;
                if k != i {
                    assert(a[k].name != a[i].name);
                }
            }
        }
    } else {
        assert(names_moved(a, b).len() == 0);
    }
}

proof fn lemma_added_unique(a: Seq<SymbolModel>, b: Seq<SymbolModel>)
    requires
        names_distinct(b),
    ensures
        names_added(a, b).no_duplicates(),
    decreases b.len(),
{
    if b.len() > 0 {
        let d = b.drop_last();
        assert(names_distinct(d)) by {
            assert forall|i: int, j: int| 0 <= i < d.len() && 0 <= j < d.len() && i != j implies d[i].name != d[j].name by {
                assert(d[i] == b[i] && d[j] == b[j]);
            }
        }
        lemma_added_unique(a, d);
        if sym_pos(a, b.last().name) is None {
            let s = names_added(a, d);
            lemma_added_members(a, d, b.last().name);
            if named_in(d, b.last().name) {
                let j = choose|j: int| 0 <= j < d.len() && d[j].name == b.last().name;
                assert(b[j].name == b[b.len() - 1].name);
            }
            assert(!s.contains(b.last().name));
            assert(names_added(a, b) == s.push(b.last().name));
            assert forall|i: int, j: int| 0 <= i < s.len() + 1 && 0 <= j < s.len() + 1 && i != j implies
                s.push(b.last().name)[i] != s.push(b.last().name)[j] by {
                if i == s.len() {
                    assert(s.push(b.last().name)[j] == s[j]);
                } else if j == s.len() {
                    assert(s.push(b.last().name)[i] == s[i]);
                }
            }
        }
    }
}

proof fn lemma_moved_unique(a: Seq<SymbolModel>, b: Seq<SymbolModel>)
    requires
        names_distinct(b),
    ensures
        names_moved(a, b).no_duplicates(),
    decreases b.len(),
{
    if b.len() > 0 {
        let d = b.drop_last();
        assert(names_distinct(d)) by {
            assert forall|i: int, j: int| 0 <= i < d.len() && 0 <= j < d.len() && i != j implies d[i].name != d[j].name by {
                assert(d[i] == b[i] && d[j] == b[j]);
            }
        }
        lemma_moved_unique(a, d);
        let last = b.last();
        if sym_pos(a, last.name) matches Some(i) && a[i].address != last.address {
            let s = names_moved(a, d);
            lemma_moved_names_from(a, d, last.name);
            if named_in(d, last.name) {
                let j = choose|j: int| 0 <= j < d.len() && d[j].name == last.name;
                assert(b[j].name == b[b.len() - 1].name);
            }
            assert(!s.contains(last.name));
            assert(names_moved(a, b) == s.push(last.name));
            assert forall|i: int, j: int| 0 <= i < s.len() + 1 && 0 <= j < s.len() + 1 && i != j implies
                s.push(last.name)[i] != s.push(last.name)[j] by {
                if i == s.len() {
                    assert(s.push(last.name)[j] == s[j]);
                } else if j == s.len() {
                    assert(s.push(last.name)[i] == s[i]);
                }
            }
        }
    }
}

proof fn lemma_moved_names_from(a: Seq<SymbolModel>, b: Seq<SymbolModel>, n: Seq<char>)
    ensures
        names_moved(a, b).contains(n) ==> named_in(b, n),
    decreases b.len(),
{
    if b.len() > 0 {
        let d = b.drop_last();
        lemma_moved_names_from(a, d, n);
        lemma_named_last(b, n);
        if names_moved(a, b).contains(n) {
            let k = choose|k: int| 0 <= k < names_moved(a, b).len() && names_moved(a, b)[k] == n;
            if k < names_moved(a, d).len() {
                assert(names_moved(a, d)[k] == n);
            }
        }
    } else {
        assert(names_moved(a, b).len() == 0);
    }
}

/// Whether a `/proc/kallsyms` type letter marks a text (code) symbol:
/// `T` for a global one, `t` for a local one.
pub open spec fn text_type(t: Seq<char>) -> bool {
    t == seq!['T'] || t == seq!['t']
}

/// A line of `/proc/kallsyms` with at least three words gives the symbol
/// named by its third word, and that symbol is a function exactly when
/// its type word marks a text symbol, global or local.
pub proof fn lemma_line_symbol_function(line: Seq<char>)
    ensures
        words(line).len() >= 3 <==> line_symbol(line) is Some,
        line_symbol(line) matches Some(m) ==> m.name == words(line)[2]
            && (m.is_function <==> text_type(words(line)[1])),
{
    reveal_strlit("T");
    reveal_strlit("t");
    assert("T"@ =~= seq!['T']);
    assert("t"@ =~= seq!['t']);
}

/// Every symbol of the table built from lines comes from one of them.
proof fn lemma_table_from_lines(lines: Seq<Seq<char>>, n: int)
    requires
        0 <= n <= lines.len(),
    ensures
        forall|k: int| 0 <= k < table_of_lines(lines, n).len() ==> exists|i: int|
            0 <= i < n && line_symbol(lines[i]) == Some(#[trigger] table_of_lines(lines, n)[k]),
    decreases n,
{
    if n > 0 {
        lemma_table_from_lines(lines, n - 1);
        let t = table_of_lines(lines, n - 1);
        match line_symbol(lines[n - 1]) {
            Some(m) => {
                let u = sym_put(t, m);
                assert forall|k: int| 0 <= k < u.len() implies exists|i: int|
                    0 <= i < n && line_symbol(lines[i]) == Some(#[trigger] u[k]) by {
                    match sym_pos(t, m.name) {
                        Some(p) => {
                            if k == p {
                                assert(u[k] == m);
                                assert(line_symbol(lines[n - 1]) == Some(u[k]));
                            } else {
                                assert(u[k] == t[k]);
                                let i = choose|i: int| 0 <= i < n - 1 && line_symbol(lines[i]) == Some(#[trigger] t[k]);
                                assert(0 <= i < n);
                            }
                        },
                        None => {
                            if k == t.len() {
                                assert(u[k] == m);
                                assert(line_symbol(lines[n - 1]) == Some(u[k]));
                            } else {
                                assert(u[k] == t[k]);
                                let i = choose|i: int| 0 <= i < n - 1 && line_symbol(lines[i]) == Some(#[trigger] t[k]);
                                assert(0 <= i < n);
                            }
                        },
                    }
                }
            },
            None => {},
        }
    }
}

/// Each symbol parsed from the text of `/proc/kallsyms` is named by the
/// third word of one of its lines, and is a function exactly when that
/// line's type word is `T` or `t`.
pub proof fn lemma_kallsyms_functions(content: Seq<char>)
    ensures
        forall|k: int| 0 <= k < kallsyms_table(content).len() ==> exists|i: int|
            0 <= i < pieces(content).len()
            && words(pieces(content)[i]).len() >= 3
            && words(pieces(content)[i])[2] == (#[trigger] kallsyms_table(content)[k]).name
            && (kallsyms_table(content)[k].is_function <==> text_type(words(pieces(content)[i])[1])),
{
    let lines = pieces(content);
    lemma_table_from_lines(lines, lines.len() as int);
    assert forall|k: int| 0 <= k < kallsyms_table(content).len() implies exists|i: int|
        0 <= i < lines.len()
        && words(lines[i]).len() >= 3
        && words(lines[i])[2] == (#[trigger] kallsyms_table(content)[k]).name
        && (kallsyms_table(content)[k].is_function <==> text_type(words(lines[i])[1])) by {
        let i = choose|i: int| 0 <= i < lines.len()
            && line_symbol(lines[i]) == Some(#[trigger] table_of_lines(lines, lines.len() as int)[k]);
        lemma_line_symbol_function(lines[i]);
    }
}

} // verus!
