//! The todo data model: status values, list filters, errors, and the
//! exact parsers that map input words onto them.

use vstd::prelude::*;
use vstd::string::StrSliceExecFns;

verus! {

/// Completion state of a todo: always one of these two values.
#[derive(Clone, Copy, PartialEq, Eq, Structural, Debug)]
pub enum Status {
    Pending,
    Completed,
}

/// Restriction of a list operation: everything, or one status.
#[derive(Clone, Copy, PartialEq, Eq, Structural, Debug)]
pub enum Filter {
    All,
    Pending,
    Completed,
}

/// The ways an input word can be rejected before any store operation runs.
#[derive(Clone, Copy, PartialEq, Eq, Structural, Debug)]
pub enum TodoError {
    /// The first argument is not one of the four operation words.
    InvalidOperation,
    /// A recognised operation word came without the arguments it needs.
    MissingArgument,
    /// A list filter outside `{all, pending, completed}`.
    InvalidFilter,
    /// A status outside `{pending, completed}`.
    InvalidStatus,
    /// An id that is not exactly 24 hexadecimal digits.
    InvalidId,
}

impl Filter {
    /// Whether a record with the given status is selected by this filter.
    pub open spec fn selects(self, status: Status) -> bool {
        match self {
            Filter::All => true,
            Filter::Pending => status == Status::Pending,
            Filter::Completed => status == Status::Completed,
        }
    }
}

/// Character-exact string equality, the test every parser rests on.
pub(crate) fn str_eq(a: &str, b: &str) -> (r: bool)
    ensures
        r == (a@ == b@),
{
    let n = a.unicode_len();
    if n != b.unicode_len() {
        return false;
    }
    let mut i: usize = 0;
    while i < n
        invariant
            n == a@.len(),
            n == b@.len(),
            i <= n,
            forall|j: int| 0 <= j < i ==> a@[j] == b@[j],
        decreases n - i,
    {
        if a.get_char(i) != b.get_char(i) {
            return false;
        }
        i += 1;
    }
    proof {
        assert(a@ =~= b@);
    }
    true
}

/// One more than the largest id value: ids are 24 hexadecimal digits,
/// i.e. 96-bit numbers.
pub const ID_SPACE: u128 = 0x1000000000000000000000000;

/// Whether `c` is a hexadecimal digit.
pub open spec fn is_hex_digit(c: char) -> bool {
    ||| ('0' as u32 <= c as u32 && c as u32 <= '9' as u32)
    ||| ('a' as u32 <= c as u32 && c as u32 <= 'f' as u32)
    ||| ('A' as u32 <= c as u32 && c as u32 <= 'F' as u32)
}

/// The value of one hexadecimal digit; characters outside the digit
/// ranges count as zero, but `valid_id` rules them out.
pub open spec fn hex_digit_value(c: char) -> int {
    if '0' as u32 <= c as u32 && c as u32 <= '9' as u32 {
        c as u32 - '0' as u32
    } else if 'a' as u32 <= c as u32 && c as u32 <= 'f' as u32 {
        c as u32 - 'a' as u32 + 10
    } else if 'A' as u32 <= c as u32 && c as u32 <= 'F' as u32 {
        c as u32 - 'A' as u32 + 10
    } else {
        0
    }
}

/// The number written by a sequence of hexadecimal digits, most
/// significant first.
pub open spec fn hex_value(s: Seq<char>) -> int
    decreases s.len(),
{
    if s.len() == 0 {
        0
    } else {
        16 * hex_value(s.drop_last()) + hex_digit_value(s.last())
    }
}

/// A well-formed id string: exactly 24 hexadecimal digits, upper or
/// lower case.
pub open spec fn valid_id(s: Seq<char>) -> bool {
    s.len() == 24 && (forall|i: int| 0 <= i < s.len() ==> is_hex_digit(#[trigger] s[i]))
}

/// Sixteen to the `n`-th power.
pub open spec fn pow16(n: nat) -> int
    decreases n,
{
    if n == 0 {
        1
    } else {
        16 * pow16((n - 1) as nat)
    }
}

/// Unique identifier of a stored todo: the 96-bit number its 24
/// hexadecimal digits write.
#[derive(Clone, Copy, PartialEq, Eq, Structural, Debug)]
pub struct TodoId {
    pub value: u128,
}

impl TodoId {
    /// An id value small enough to be written as 24 hexadecimal digits.
    pub open spec fn wf(self) -> bool {
        self.value < ID_SPACE
    }

    /// Maps a string of exactly 24 hexadecimal digits to the id it
    /// writes; anything else is rejected before a store operation runs.
    pub fn parse(s: &str) -> (r: Result<TodoId, TodoError>)
        ensures
            r is Ok <==> valid_id(s@),
            r is Ok ==> r->Ok_0.value == hex_value(s@) && r->Ok_0.wf(),
            r is Err ==> r == Err::<TodoId, TodoError>(TodoError::InvalidId),
    {
        let n = s.unicode_len();
        if n != 24 {
            return Err(TodoError::InvalidId);
        }
        let mut value: u128 = 0;
        let mut i: usize = 0;
        while i < 24
            invariant
                s@.len() == 24,
                i <= 24,
                forall|j: int| 0 <= j < i ==> is_hex_digit(#[trigger] s@[j]),
                value == hex_value(s@.subrange(0, i as int)),
                value < pow16(i as nat),
            decreases 24 - i,
        {
            let c = s.get_char(i);
            let u = c as u32;
            let d: u128;
            if '0' as u32 <= u && u <= '9' as u32 {
                d = (u - '0' as u32) as u128;
            } else if 'a' as u32 <= u && u <= 'f' as u32 {
                d = (u - 'a' as u32 + 10) as u128;
            } else if 'A' as u32 <= u && u <= 'F' as u32 {
                d = (u - 'A' as u32 + 10) as u128;
            } else {
                return Err(TodoError::InvalidId);
            }
            proof {
                assert(d == hex_digit_value(s@[i as int]));
                lemma_pow16_le(i as nat, 23);
                reveal_with_fuel(pow16, 25);
                assert(s@.subrange(0, (i + 1) as int).drop_last() =~= s@.subrange(0, i as int));
            }
            value = value * 16 + d;
            i += 1;
        }
        proof {
            assert(s@.subrange(0, 24) =~= s@);
            reveal_with_fuel(pow16, 25);
        }
        Ok(TodoId { value })
    }
}

/// The sixteen digit characters, one per value, lower case.
fn digit_str(d: u128) -> (r: &'static str)
    requires
        d < 16,
    ensures
        r@.len() == 1,
        is_hex_digit(r@[0]),
        hex_digit_value(r@[0]) == d,
{
    proof {
        reveal_strlit("0");
        reveal_strlit("1");
        reveal_strlit("2");
        reveal_strlit("3");
        reveal_strlit("4");
        reveal_strlit("5");
        reveal_strlit("6");
        reveal_strlit("7");
        reveal_strlit("8");
        reveal_strlit("9");
        reveal_strlit("a");
        reveal_strlit("b");
        reveal_strlit("c");
        reveal_strlit("d");
        reveal_strlit("e");
        reveal_strlit("f");
    }
    if d == 0 {
        "0"
    } else if d == 1 {
        "1"
    } else if d == 2 {
        "2"
    } else if d == 3 {
        "3"
    } else if d == 4 {
        "4"
    } else if d == 5 {
        "5"
    } else if d == 6 {
        "6"
    } else if d == 7 {
        "7"
    } else if d == 8 {
        "8"
    } else if d == 9 {
        "9"
    } else if d == 10 {
        "a"
    } else if d == 11 {
        "b"
    } else if d == 12 {
        "c"
    } else if d == 13 {
        "d"
    } else if d == 14 {
        "e"
    } else {
        "f"
    }
}

impl TodoId {
    /// Writes the id as the 24 hexadecimal digits whose value it is:
    /// the exact inverse of `parse` on well-formed ids.
    pub fn to_hex(&self) -> (r: String)
        requires
            self.wf(),
        ensures
            valid_id(r@),
            hex_value(r@) == self.value,
    {
        let mut s = String::new();
        let mut rem: u128 = self.value;
        let mut divisor: u128 = 0x100000000000000000000000;
        let mut i: usize = 0;
        proof {
            reveal_with_fuel(pow16, 25);
        }
        while i < 24
            invariant
                i <= 24,
                s@.len() == i,
                forall|j: int| 0 <= j < i ==> is_hex_digit(#[trigger] s@[j]),
                i < 24 ==> divisor == pow16((23 - i) as nat),
                rem < pow16((24 - i) as nat),
                self.value == hex_value(s@) * pow16((24 - i) as nat) + rem,
            decreases 24 - i,
        {
            let ghost p = pow16((23 - i) as nat) as int;
            proof {
                lemma_pow16_le(0, (23 - i) as nat);
                assert(pow16((24 - i) as nat) == 16 * p);
                vstd::arithmetic::div_mod::lemma_fundamental_div_mod(rem as int, p);
                assert(rem as int / p < 16) by (nonlinear_arith)
                    requires
                        p >= 1,
                        rem as int == p * (rem as int / p) + (rem as int % p),
                        0 <= rem as int % p,
                        rem < 16 * p,
                {
                }
            }
            let d = rem / divisor;
            let digit = digit_str(d);
            let ghost before = s@;
            s.append(digit);
            proof {
                assert(s@.drop_last() =~= before);
                assert(s@.last() == digit@[0]);
                assert(hex_value(s@) == 16 * hex_value(before) + d);
                assert(hex_value(s@) * p + (rem as int % p) == hex_value(before) * (16 * p)
                    + rem) by (nonlinear_arith)
                    requires
                        hex_value(s@) == 16 * hex_value(before) + d,
                        rem as int == p * (rem as int / p) + (rem as int % p),
                        d == rem as int / p,
                {
                }
                if i < 23 {
                    assert(pow16((23 - i) as nat) == 16 * pow16((22 - i) as nat));
                    vstd::arithmetic::div_mod::lemma_div_multiples_vanish(
                        pow16((22 - i) as nat),
                        16,
                    );
                }
            }
            rem = rem % divisor;
            divisor = divisor / 16;
            i += 1;
        }
        s
    }
}

/// Powers of sixteen are positive and do not shrink as the exponent grows.
proof fn lemma_pow16_le(a: nat, b: nat)
    requires
        a <= b,
    ensures
        1 <= pow16(a) <= pow16(b),
    decreases b,
{
    if a < b {
        lemma_pow16_le(a, (b - 1) as nat);
    } else if a == b && a > 0 {
        lemma_pow16_le((a - 1) as nat, (b - 1) as nat);
    }
}

impl Status {
    /// Maps the word `pending` or `completed` to its status; any other
    /// word is rejected, so an update can never store a third value.
    pub fn parse(s: &str) -> (r: Result<Status, TodoError>)
        ensures
            r == Ok::<Status, TodoError>(Status::Pending) <==> s@ == "pending"@,
            r == Ok::<Status, TodoError>(Status::Completed) <==> s@ == "completed"@,
            r is Err <==> s@ != "pending"@ && s@ != "completed"@,
            r is Err ==> r == Err::<Status, TodoError>(TodoError::InvalidStatus),
    {
        proof {
            reveal_strlit("pending");
            reveal_strlit("completed");
            assert("pending"@.len() != "completed"@.len());
        }
        if str_eq(s, "pending") {
            Ok(Status::Pending)
        } else if str_eq(s, "completed") {
            Ok(Status::Completed)
        } else {
            Err(TodoError::InvalidStatus)
        }
    }
}

/// One todo: a fixed free-text description, a completion status, and an
/// id that the store assigns on insertion and that is absent before it.
pub struct Todo {
    pub id: Option<TodoId>,
    pub description: String,
    pub status: Status,
}

impl Todo {
    /// A freshly created todo: the given description, pending, no id yet.
    pub fn new(description: String) -> (t: Todo)
        ensures
            t.id is None,
            t.description == description,
            t.status == Status::Pending,
    {
        Todo { id: None, description, status: Status::Pending }
    }
}

impl Filter {
    /// Whether a record with the given status passes this filter.
    pub fn admits(&self, status: Status) -> (r: bool)
        ensures
            r == self.selects(status),
    {
        match self {
            Filter::All => true,
            Filter::Pending => status == Status::Pending,
            Filter::Completed => status == Status::Completed,
        }
    }

    /// Maps the word `all`, `pending` or `completed` to its filter; any
    /// other word is rejected before a list operation touches the store.
    pub fn parse(s: &str) -> (r: Result<Filter, TodoError>)
        ensures
            r == Ok::<Filter, TodoError>(Filter::All) <==> s@ == "all"@,
            r == Ok::<Filter, TodoError>(Filter::Pending) <==> s@ == "pending"@,
            r == Ok::<Filter, TodoError>(Filter::Completed) <==> s@ == "completed"@,
            r is Err <==> s@ != "all"@ && s@ != "pending"@ && s@ != "completed"@,
            r is Err ==> r == Err::<Filter, TodoError>(TodoError::InvalidFilter),
    {
        proof {
            reveal_strlit("all");
            reveal_strlit("pending");
            reveal_strlit("completed");
            assert("all"@.len() != "pending"@.len());
            assert("all"@.len() != "completed"@.len());
            assert("pending"@.len() != "completed"@.len());
        }
        if str_eq(s, "all") {
            Ok(Filter::All)
        } else if str_eq(s, "pending") {
            Ok(Filter::Pending)
        } else if str_eq(s, "completed") {
            Ok(Filter::Completed)
        } else {
            Err(TodoError::InvalidFilter)
        }
    }
}

} // verus!
