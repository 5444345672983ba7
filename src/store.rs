use vstd::prelude::*;

verus! {

/// The map that holds the A/B parameters.
pub const AB_PARAMS_MAP: &'static str = "cfg:exp:ab";

/// The map that holds the default action choice of each ad.
pub const DEFAULT_CHOICE_MAP: &'static str = "exp:default:adid:choices";

/// The map that holds the target CTR of each action.
pub const TARGET_CTR_MAP: &'static str = "cfg:exp:action:targetctr:default";

/// The prefix of the maps that hold the scores of one version.
pub const SCORES_NAMESPACE: &'static str = "expversion:score:default";

/// The ten decimal digits, in order.
pub const DIGITS: &'static str = "0123456789";

/// One write into a hash-like map of the store.
#[derive(Debug, PartialEq, Eq)]
pub enum StoreWrite {
    /// Sets one field of `map`.
    SetField { map: String, field: String, value: String },
    /// Sets each `(field, value)` of `entries` in `map`, in order.
    SetFields { map: String, entries: Vec<(String, String)> },
}

/// What a write does, over plain sequences of characters.
pub ghost enum WriteView {
    Field(Seq<char>, Seq<char>, Seq<char>),
    Fields(Seq<char>, Seq<(Seq<char>, Seq<char>)>),
}

impl View for StoreWrite {
    type V = WriteView;

    open spec fn view(&self) -> WriteView {
        match self {
            StoreWrite::SetField { map, field, value } => WriteView::Field(map@, field@, value@),
            StoreWrite::SetFields { map, entries } => WriteView::Fields(map@, entries.deep_view()),
        }
    }
}

/// The views of a sequence of writes.
pub open spec fn write_views(ws: Seq<StoreWrite>) -> Seq<WriteView> {
    ws.map_values(|w: StoreWrite| w@)
}

/// The decimal digit for `d < 10`.
pub open spec fn digit_char(d: nat) -> char {
    DIGITS@[d as int]
}

/// `n` written in decimal, without leading zeros.
pub open spec fn decimal(n: nat) -> Seq<char>
    decreases n,
{
    if n < 10 {
        seq![digit_char(n)]
    } else {
        decimal(n / 10).push(digit_char(n % 10))
    }
}

/// The entries that give the position of each value as its field, counting from zero.
pub open spec fn indexed(values: Seq<Seq<char>>) -> Seq<(Seq<char>, Seq<char>)> {
    Seq::new(values.len(), |i: int| (decimal(i as nat), values[i]))
}

proof fn lemma_decimal_nonempty(n: nat)
    ensures
        decimal(n).len() >= 1,
    decreases n,
{
    if n >= 10 {
        lemma_decimal_nonempty(n / 10);
    }
}

/// Two numbers with the same decimal text are the same number.
pub proof fn lemma_decimal_injective(n: nat, m: nat)
    requires
        decimal(n) == decimal(m),
    ensures
        n == m,
    decreases n,
{
    reveal_strlit("0123456789");
    if n < 10 && m < 10 {
        assert(decimal(n)[0] == digit_char(n));
        assert(decimal(m)[0] == digit_char(m));
    } else if n < 10 {
        lemma_decimal_nonempty(m / 10);
        assert(decimal(m).len() >= 2);
    } else if m < 10 {
        lemma_decimal_nonempty(n / 10);
        assert(decimal(n).len() >= 2);
    } else {
        assert(decimal(n).last() == digit_char(n % 10));
        assert(decimal(m).last() == digit_char(m % 10));
        assert(decimal(n).drop_last() =~= decimal(n / 10));
        assert(decimal(m).drop_last() =~= decimal(m / 10));
        lemma_decimal_injective(n / 10, m / 10);
    }
}

/// The entries of an array give back each value under its position: the entry
/// whose field reads `i` holds the `i`th value, the first value has field `0`,
/// and no two positions share a field.
pub proof fn lemma_indexed_round_trip(values: Seq<Seq<char>>)
    ensures
        indexed(values).len() == values.len(),
        forall|i: int| 0 <= i < values.len() ==> (#[trigger] indexed(values)[i]).1 == values[i],
        forall|i: int, j: int|
            0 <= i < values.len() && 0 <= j < values.len() && (#[trigger] indexed(values)[i]).0
                == (#[trigger] indexed(values)[j]).0 ==> i == j,
        values.len() > 0 ==> indexed(values)[0] == ("0"@, values[0]),
{
    reveal_strlit("0123456789");
    reveal_strlit("0");
    assert forall|i: int, j: int|
        0 <= i < values.len() && 0 <= j < values.len() && (#[trigger] indexed(values)[i]).0
            == (#[trigger] indexed(values)[j]).0 implies i == j by {
        lemma_decimal_injective(i as nat, j as nat);
    }
    if values.len() > 0 {
        assert(decimal(0) =~= "0"@);
    }
}

/// `n` in decimal, as used for the field of an action id.
pub fn index_field(n: usize) -> (r: String)
    ensures
        r@ == decimal(n as nat),
    decreases n,
{
    proof {
        reveal_strlit("0123456789");
    }
    let d = n % 10;
    let c = DIGITS.substring_char(d, d + 1);
    assert(c@ =~= seq![digit_char(d as nat)]);
    if n < 10 {
        String::from_str(c)
    } else {
        let mut s = index_field(n / 10);
        s.append(c);
        s
    }
}

/// Pairs each value with its position: the first value is field `0`.
pub fn indexed_entries(values: &Vec<String>) -> (r: Vec<(String, String)>)
    ensures
        r.deep_view() == indexed(values.deep_view()),
        r.len() == values.len(),
        forall|i: int| 0 <= i < values.len() ==> (#[trigger] r[i]).0@ == decimal(i as nat) && r[i].1@ == values[i]@,
{
    let mut r: Vec<(String, String)> = Vec::new();
    let mut i: usize = 0;
    while i < values.len()
        invariant
            i <= values.len(),
            r.len() == i,
            forall|j: int| 0 <= j < i ==> (#[trigger] r[j]).0@ == decimal(j as nat) && r[j].1@ == values[j]@,
        decreases values.len() - i,
    {
        let field = index_field(i);
        let value = values[i].clone();
        r.push((field, value));
        i = i + 1;
    }
    assert(r.deep_view() =~= indexed(values.deep_view()));
    r
}

/// A bulk write of `entries` into `map`; nothing when there are no entries, since
/// the store takes no empty bulk write.
pub fn set_fields(map: String, entries: Vec<(String, String)>) -> (r: Option<StoreWrite>)
    ensures
        r is None <==> entries.len() == 0,
        r matches Some(w) ==> w@ == WriteView::Fields(map@, entries.deep_view()),
{
    if entries.len() == 0 {
        None
    } else {
        Some(StoreWrite::SetFields { map, entries })
    }
}

} // verus!
