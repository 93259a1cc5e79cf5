use vstd::prelude::*;

verus! {

/// ASCII code of decimal digit `d`.
pub open spec fn digit_byte(d: nat) -> u8 {
    (48 + d) as u8
}

/// Decimal digits of `n`, most significant first, without leading zeros.
pub open spec fn decimal(n: nat) -> Seq<u8>
    decreases n,
{
    if n < 10 {
        seq![digit_byte(n)]
    } else {
        decimal(n / 10).push(digit_byte(n % 10))
    }
}

/// The save text of a cell sequence: a space, then each id followed by a space.
pub open spec fn encode_cells(cells: Seq<usize>) -> Seq<u8>
    decreases cells.len(),
{
    if cells.len() == 0 {
        seq![32u8]
    } else {
        encode_cells(cells.drop_last()) + decimal(cells.last() as nat) + seq![32u8]
    }
}

/// ASCII whitespace as `split_whitespace` sees it.
pub open spec fn is_space(b: u8) -> bool {
    b == 32 || (9 <= b <= 13)
}

pub open spec fn is_digit(b: u8) -> bool {
    48 <= b <= 57
}

/// The text holds only digits and whitespace.
pub open spec fn well_formed(s: Seq<u8>) -> bool {
    forall|i: int| 0 <= i < s.len() ==> is_digit(#[trigger] s[i]) || is_space(s[i])
}

/// Reading state: the numbers read so far and the one being read, if any.
pub open spec fn read_byte(st: (Seq<nat>, Option<nat>), b: u8) -> (Seq<nat>, Option<nat>) {
    if is_digit(b) {
        let d = (b - 48) as nat;
        match st.1 {
            Some(v) => (st.0, Some(v * 10 + d)),
            None => (st.0, Some(d)),
        }
    } else {
        match st.1 {
            Some(v) => (st.0.push(v), None),
            None => st,
        }
    }
}

/// The reading state after the bytes of `s`, starting from `st`.
pub open spec fn read_from(st: (Seq<nat>, Option<nat>), s: Seq<u8>) -> (Seq<nat>, Option<nat>)
    decreases s.len(),
{
    if s.len() == 0 {
        st
    } else {
        read_byte(read_from(st, s.drop_last()), s.last())
    }
}

/// The numbers of a well-formed text, in order.
pub open spec fn parsed(s: Seq<u8>) -> Seq<nat> {
    let st = read_from((Seq::empty(), None), s);
    match st.1 {
        Some(v) => st.0.push(v),
        None => st.0,
    }
}

/// Cell ids as numbers.
pub open spec fn as_nats(cells: Seq<usize>) -> Seq<nat> {
    cells.map_values(|c: usize| c as nat)
}

/// Why a save text was refused.
#[derive(PartialEq, Eq, Clone, Copy, Debug, Structural)]
pub enum LoadError {
    /// A byte that is neither a digit nor whitespace.
    Malformed,
    /// An id with no tile in the tileset.
    UnknownTile,
    /// Not one id per cell.
    WrongCount,
}

/// Reading two texts one after the other is reading their concatenation.
pub proof fn lemma_read_concat(st: (Seq<nat>, Option<nat>), a: Seq<u8>, b: Seq<u8>)
    ensures
        read_from(st, a + b) == read_from(read_from(st, a), b),
    decreases b.len(),
{
    if b.len() == 0 {
        assert(a + b =~= a);
    } else {
        assert((a + b).drop_last() =~= a + b.drop_last());
        lemma_read_concat(st, a, b.drop_last());
    }
}

/// Reading the digits of `n` after a separator yields `n` in progress.
pub proof fn lemma_read_decimal(acc: Seq<nat>, n: nat)
    ensures
        read_from((acc, None), decimal(n)) == (acc, Some(n)),
    decreases n,
{
    let d = n % 10;
    assert(digit_byte(d) == 48 + d);
    assert(is_digit(digit_byte(d)) && digit_byte(d) - 48 == d);
    if n < 10 {
        assert(decimal(n).drop_last() =~= Seq::<u8>::empty());
        assert(read_from((acc, None), Seq::<u8>::empty()) == (acc, Option::<nat>::None));
        assert(read_from((acc, None), decimal(n)) == read_byte((acc, None), digit_byte(d)));
    } else {
        lemma_read_decimal(acc, n / 10);
        assert(decimal(n).drop_last() =~= decimal(n / 10));
        assert(read_from((acc, None), decimal(n)) == read_byte((acc, Some(n / 10)), digit_byte(d)));
        assert((n / 10) * 10 + d == n);
    }
}

/// Every byte of a decimal is a digit.
pub proof fn lemma_decimal_digits(n: nat)
    ensures
        forall|i: int| 0 <= i < decimal(n).len() ==> is_digit(#[trigger] decimal(n)[i]),
        decimal(n).len() >= 1,
    decreases n,
{
    if n >= 10 {
        lemma_decimal_digits(n / 10);
    }
}

/// Reading the save text of `cells` gives every id back and nothing in progress.
pub proof fn lemma_read_encoded(cells: Seq<usize>)
    ensures
        read_from((Seq::empty(), None), encode_cells(cells)) == (as_nats(cells), Option::<nat>::None),
        well_formed(encode_cells(cells)),
    decreases cells.len(),
{
    let st0 = (Seq::<nat>::empty(), Option::<nat>::None);
    if cells.len() == 0 {
        assert(encode_cells(cells).drop_last() =~= Seq::<u8>::empty());
        assert(as_nats(cells) =~= Seq::<nat>::empty());
        assert(read_from(st0, encode_cells(cells)) == read_byte(read_from(st0, Seq::<u8>::empty()), 32u8));
    } else {
        let init = cells.drop_last();
        let x = encode_cells(init);
        let d = decimal(cells.last() as nat);
        lemma_read_encoded(init);
        lemma_read_concat(st0, x, d);
        lemma_read_decimal(as_nats(init), cells.last() as nat);
        lemma_decimal_digits(cells.last() as nat);
        assert(encode_cells(cells).drop_last() =~= x + d);
        assert(as_nats(cells) =~= as_nats(init).push(cells.last() as nat));
        assert(read_from(st0, encode_cells(cells)) == read_byte(read_from(st0, x + d), 32u8));
        assert(read_from(st0, x + d) == (as_nats(init), Some(cells.last() as nat)));
        assert forall|i: int| 0 <= i < encode_cells(cells).len() implies is_digit(
            #[trigger] encode_cells(cells)[i],
        ) || is_space(encode_cells(cells)[i]) by {
            if i < x.len() {
                assert(encode_cells(cells)[i] == x[i]);
            } else if i < x.len() + d.len() {
                assert(encode_cells(cells)[i] == d[i - x.len()]);
            }
        }
    }
}

/// Loading what saving wrote gives the same cells: the text is well formed and reads back as
/// the ids it was made from.
pub proof fn lemma_save_load_round_trip(cells: Seq<usize>)
    ensures
        well_formed(encode_cells(cells)),
        parsed(encode_cells(cells)) == as_nats(cells),
{
    lemma_read_encoded(cells);
}

/// Appends the decimal digits of `n`.
pub fn push_decimal(out: &mut Vec<u8>, n: usize)
    ensures
        final(out)@ == old(out)@ + decimal(n as nat),
    decreases n,
{
    if n >= 10 {
        push_decimal(out, n / 10);
    }
    out.push((48 + n % 10) as u8);
    proof {
        if n >= 10 {
            assert(decimal(n as nat) == decimal((n / 10) as nat).push(digit_byte((n % 10) as nat)));
        }
    }
}

/// The save text of a cell sequence.
pub fn save_cells(cells: &Vec<usize>) -> (r: Vec<u8>)
    ensures
        r@ == encode_cells(cells@),
{
    let mut out: Vec<u8> = Vec::new();
    out.push(32u8);
    let mut i: usize = 0;
    while i < cells.len()
        invariant
            i <= cells@.len(),
            out@ == encode_cells(cells@.take(i as int)),
        decreases cells@.len() - i,
    {
        proof {
            assert(cells@.take(i as int + 1).drop_last() =~= cells@.take(i as int));
        }
        push_decimal(&mut out, cells[i]);
        out.push(32u8);
        i = i + 1;
    }
    proof {
        assert(cells@.take(i as int) =~= cells@);
    }
    out
}

/// The smaller of two numbers.
pub open spec fn min_nat(a: nat, b: nat) -> nat {
    if a <= b { a } else { b }
}

/// Reads the ids of a save text, each of which must be below `limit`.
pub fn load_cells(data: &Vec<u8>, limit: usize) -> (r: Result<Vec<usize>, LoadError>)
    ensures
        r == Err::<Vec<usize>, LoadError>(LoadError::Malformed) <==> !well_formed(data@),
        r == Err::<Vec<usize>, LoadError>(LoadError::UnknownTile) <==> well_formed(data@) && exists|i: int|
            0 <= i < parsed(data@).len() && #[trigger] parsed(data@)[i] >= limit,
        r matches Ok(v) ==> as_nats(v@) == parsed(data@),
        r is Err ==> r == Err::<Vec<usize>, LoadError>(LoadError::Malformed) || r == Err::<
            Vec<usize>,
            LoadError,
        >(LoadError::UnknownTile),
{
    let n = data.len();
    let mut i: usize = 0;
    while i < n
        invariant
            n == data@.len(),
            i <= n,
            forall|k: int| 0 <= k < i ==> is_digit(#[trigger] data@[k]) || is_space(data@[k]),
        decreases n - i,
    {
        let b = data[i];
        if !((48 <= b && b <= 57) || b == 32 || (9 <= b && b <= 13)) {
            return Err(LoadError::Malformed);
        }
        i = i + 1;
    }
    let mut vals: Vec<usize> = Vec::new();
    let mut bad = false;
    let mut cur: Option<u128> = None;
    let ghost mut st: (Seq<nat>, Option<nat>) = (Seq::empty(), None);
    let mut j: usize = 0;
    while j < n
        invariant
            n == data@.len(),
            j <= n,
            well_formed(data@),
            st == read_from((Seq::empty(), None), data@.take(j as int)),
            bad <==> exists|k: int| 0 <= k < st.0.len() && #[trigger] st.0[k] >= limit,
            !bad ==> as_nats(vals@) == st.0,
            cur is Some <==> st.1 is Some,
            cur matches Some(c) ==> c == min_nat(st.1->0, limit as nat),
        decreases n - j,
    {
        let b = data[j];
        proof {
            assert(data@.take(j as int + 1).drop_last() =~= data@.take(j as int));
            assert(is_digit(data@[j as int]) || is_space(data@[j as int]));
        }
        let ghost prev = st;
        proof {
            st = read_byte(st, b);
        }
        if 48 <= b && b <= 57 {
            let d: u128 = (b - 48) as u128;
            let next: u128 = match cur {
                Some(c) => c * 10 + d,
                None => d,
            };
            proof {
                match prev.1 {
                    Some(v) => {
                        let l = limit as nat;
                        assert(min_nat((v * 10 + d) as nat, l) == min_nat((min_nat(v, l) * 10 + d) as nat, l))
                            by (nonlinear_arith)
                            requires
                                d >= 0,
                        ;
                    },
                    None => {},
                }
            }
            cur = Some(if next > limit as u128 { limit as u128 } else { next });
            assert(st.0 == prev.0);
        } else {
            match cur {
                Some(c) => {
                    if c >= limit as u128 {
                        bad = true;
                    } else {
                        vals.push(c as usize);
                    }
                    proof {
                        if !bad {
                            assert(as_nats(vals@) =~= st.0);
                        }
                        if c >= limit as u128 {
                            assert(st.0[st.0.len() - 1] >= limit);
                        } else {
                            assert forall|k: int| 0 <= k < prev.0.len() && #[trigger] prev.0[k] >= limit implies st.0[k] >= limit by {
                                assert(st.0[k] == prev.0[k]);
                            }
                            assert forall|k: int| 0 <= k < st.0.len() && #[trigger] st.0[k] >= limit implies k < prev.0.len() && prev.0[k] >= limit by {
                                if k == prev.0.len() {
                                    assert(st.0[k] == prev.1->0);
                                }
                            }
                        }
                    }
                    cur = None;
                },
                None => {
                    assert(st == prev);
                },
            }
        }
        j = j + 1;
    }
    proof {
        assert(data@.take(n as int) =~= data@);
    }
    let ghost fin = parsed(data@);
    match cur {
        Some(c) => {
            proof {
                assert(fin == st.0.push(st.1->0));
            }
            if c >= limit as u128 {
                bad = true;
                assert(fin[fin.len() - 1] >= limit);
            } else {
                vals.push(c as usize);
                proof {
                    if !bad {
                        assert(as_nats(vals@) =~= fin);
                    }
                    assert forall|k: int| 0 <= k < st.0.len() && #[trigger] st.0[k] >= limit implies fin[k] >= limit by {
                        assert(fin[k] == st.0[k]);
                    }
                    assert forall|k: int| 0 <= k < fin.len() && #[trigger] fin[k] >= limit implies k < st.0.len() && st.0[k] >= limit by {
                        if k == st.0.len() {
                            assert(fin[k] == st.1->0);
                        }
                    }
                }
            }
        },
        None => {
            assert(fin == st.0);
        },
    }
    if bad {
        Err(LoadError::UnknownTile)
    } else {
        Ok(vals)
    }
}

} // verus!
