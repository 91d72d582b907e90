//! Resolution of logical names into physical addresses.
use vstd::prelude::*;
use crate::board::{Board, PhysicalAddress, PinEntry, board_table, entry_views, table_names};
use crate::error::TransportError;

verus! {

/// The address of the first entry of `t` named `n`, if any.
pub open spec fn lookup(t: Seq<(Seq<char>, PhysicalAddress)>, n: Seq<char>) -> Option<
    PhysicalAddress,
>
    decreases t.len(),
{
    if t.len() == 0 {
        None
    } else if t[0].0 == n {
        Some(t[0].1)
    } else {
        lookup(t.drop_first(), n)
    }
}

/// The first address of `n` in `t` is its only one when the names of `t` are distinct.
pub proof fn lemma_lookup_distinct(t: Seq<(Seq<char>, PhysicalAddress)>, i: int)
    requires
        0 <= i < t.len(),
        table_names(t).no_duplicates(),
    ensures
        lookup(t, t[i].0) == Some(t[i].1),
    decreases t.len(),
{
    if i > 0 {
        assert(table_names(t)[0] == t[0].0 && table_names(t)[i] == t[i].0);
        assert(table_names(t.drop_first()) =~= table_names(t).drop_first());
        lemma_lookup_distinct(t.drop_first(), i - 1);
    }
}

/// A name that no entry of `t` carries has no address in `t`.
pub proof fn lemma_lookup_absent(t: Seq<(Seq<char>, PhysicalAddress)>, n: Seq<char>)
    requires
        !table_names(t).contains(n),
    ensures
        lookup(t, n) == None::<PhysicalAddress>,
    decreases t.len(),
{
    if t.len() > 0 {
        assert(table_names(t)[0] == t[0].0);
        assert(table_names(t.drop_first()) =~= table_names(t).drop_first());
        if table_names(t.drop_first()).contains(n) {
            let k = choose|k: int|
                0 <= k < table_names(t.drop_first()).len() && table_names(t.drop_first())[k] == n;
            assert(table_names(t)[k + 1] == n);
        }
        lemma_lookup_absent(t.drop_first(), n);
    }
}

/// The address of the first entry named `name`, if any.
fn find_entry(entries: &Vec<PinEntry>, name: &String) -> (r: Option<PhysicalAddress>)
    ensures
        r == lookup(entry_views(entries@), name@),
{
    let n = entries.len();
    let mut i: usize = 0;
    assert(entry_views(entries@).skip(0) =~= entry_views(entries@));
    while i < n
        invariant
            n == entries@.len(),
            i <= n,
            lookup(entry_views(entries@), name@) == lookup(
                entry_views(entries@).skip(i as int),
                name@,
            ),
        decreases n - i,
    {
        let ghost t = entry_views(entries@).skip(i as int);
        assert(t[0] == entries@[i as int]@);
        assert(t.drop_first() =~= entry_views(entries@).skip(i + 1));
        if entries[i].name == *name {
            return Some(entries[i].addr);
        }
        i = i + 1;
    }
    assert(entry_views(entries@).skip(n as int).len() == 0);
    None
}

/// The lookup structure of one transport: a board's table, with overrides of the
/// user's that take precedence for the names they carry.
#[derive(Debug)]
pub struct IoMapper {
    board: Board,
    overrides: Vec<PinEntry>,
}

impl IoMapper {
    /// The board whose table this mapper reads.
    pub closed spec fn board_spec(&self) -> Board {
        self.board
    }

    /// The user's overrides.
    pub closed spec fn overrides_spec(&self) -> Seq<(Seq<char>, PhysicalAddress)> {
        entry_views(self.overrides@)
    }

    /// The address that `n` resolves to: an override's if one carries `n`, else the
    /// board's.
    pub open spec fn resolve_spec(&self, n: Seq<char>) -> Option<PhysicalAddress> {
        match lookup(self.overrides_spec(), n) {
            Some(a) => Some(a),
            None => lookup(board_table(self.board_spec()), n),
        }
    }

    /// A mapper over the board's own table.
    pub fn new(board: Board) -> (r: IoMapper)
        ensures
            r.board_spec() == board,
            r.overrides_spec().len() == 0,
    {
        let m = IoMapper { board, overrides: Vec::new() };
        assert(m.overrides_spec() =~= Seq::empty());
        m
    }

    /// A mapper over the board's table with the given overrides.
    pub fn with_overrides(board: Board, overrides: Vec<PinEntry>) -> (r: IoMapper)
        ensures
            r.board_spec() == board,
            r.overrides_spec() == entry_views(overrides@),
    {
        IoMapper { board, overrides }
    }

    /// The board whose table this mapper reads.
    pub fn board(&self) -> (r: Board)
        ensures
            r == self.board_spec(),
    {
        self.board
    }

    /// The address of logical name `name`; `UnknownPin` with that name if neither the
    /// overrides nor the board declare it.
    pub fn resolve(&self, name: &str) -> (r: Result<PhysicalAddress, TransportError>)
        ensures
            match self.resolve_spec(name@) {
                Some(a) => r == Ok::<PhysicalAddress, TransportError>(a),
                None => r matches Err(TransportError::UnknownPin(m)) && m@ == name@,
            },
    {
        let key = String::from_str(name);
        match find_entry(&self.overrides, &key) {
            Some(a) => Ok(a),
            None => {
                let pins = self.board.pins();
                match find_entry(&pins, &key) {
                    Some(a) => Ok(a),
                    None => Err(TransportError::UnknownPin(key)),
                }
            },
        }
    }
}

/// The names of each board's table are distinct.
pub proof fn lemma_board_names_distinct(b: Board)
    ensures
        table_names(board_table(b)).no_duplicates(),
{
    reveal_strlit("RESET");
    reveal_strlit("TAP_STRAP0");
    reveal_strlit("TAP_STRAP1");
    reveal_strlit("BOOTSTRAP");
    reveal_strlit("SPI_FLASH");
    reveal_strlit("console");
    reveal_strlit("aux");
    let names = table_names(board_table(b));
    assert(names =~= seq![
        "RESET"@,
        "TAP_STRAP0"@,
        "TAP_STRAP1"@,
        "BOOTSTRAP"@,
        "SPI_FLASH"@,
        "console"@,
        "aux"@,
    ]);
    assert forall|i: int, j: int| 0 <= i < names.len() && 0 <= j < names.len() && i != j implies names[i]
        != names[j] by {
        if names[i] == names[j] {
            assert(names[i].len() == names[j].len());
            assert(names[i][0] == names[j][0]);
            assert(names[i][names[i].len() - 1] == names[j][names[j].len() - 1]);
        }
    }
}

/// A mapper without overrides resolves every name that its board declares to the
/// table's address for it, and fails on every name that the board does not declare.
pub proof fn lemma_resolve_board_table(m: IoMapper, n: Seq<char>)
    requires
        m.overrides_spec().len() == 0,
    ensures
        forall|i: int|
            0 <= i < board_table(m.board_spec()).len() && board_table(m.board_spec())[i].0 == n
                ==> m.resolve_spec(n) == Some(board_table(m.board_spec())[i].1),
        !table_names(board_table(m.board_spec())).contains(n) ==> m.resolve_spec(n) == None::<
            PhysicalAddress,
        >,
{
    let t = board_table(m.board_spec());
    assert(lookup(m.overrides_spec(), n) == None::<PhysicalAddress>);
    lemma_board_names_distinct(m.board_spec());
    assert forall|i: int| 0 <= i < t.len() && t[i].0 == n implies m.resolve_spec(n) == Some(
        t[i].1,
    ) by {
        lemma_lookup_distinct(t, i);
    }
    if !table_names(t).contains(n) {
        lemma_lookup_absent(t, n);
    }
}

/// An override carrying `n` decides its address; a name that no override carries
/// resolves as the board declares it.
pub proof fn lemma_override_precedence(m: IoMapper, n: Seq<char>)
    ensures
        table_names(m.overrides_spec()).contains(n) ==> m.resolve_spec(n) == lookup(
            m.overrides_spec(),
            n,
        ),
        !table_names(m.overrides_spec()).contains(n) ==> m.resolve_spec(n) == lookup(
            board_table(m.board_spec()),
            n,
        ),
{
    if table_names(m.overrides_spec()).contains(n) {
        lemma_lookup_present(m.overrides_spec(), n);
    } else {
        lemma_lookup_absent(m.overrides_spec(), n);
    }
}

/// A name that some entry of `t` carries has an address in `t`.
pub proof fn lemma_lookup_present(t: Seq<(Seq<char>, PhysicalAddress)>, n: Seq<char>)
    requires
        table_names(t).contains(n),
    ensures
        lookup(t, n) is Some,
    decreases t.len(),
{
    assert(table_names(t)[0] == t[0].0);
    if t[0].0 != n {
        assert(table_names(t.drop_first()) =~= table_names(t).drop_first());
        let k = choose|k: int| 0 <= k < table_names(t).len() && table_names(t)[k] == n;
        assert(k > 0);
        assert(table_names(t.drop_first())[k - 1] == n);
        lemma_lookup_present(t.drop_first(), n);
    }
}

} // verus!
