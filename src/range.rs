use vstd::prelude::*;

verus! {

/// The ranges that a `Range` header value asks for, validated against a file
/// of `size` bytes, each as an inclusive `(start, end)`; `None` where the value
/// is malformed or the ranges are not satisfiable.
pub uninterp spec fn validated_ranges_of(value: Seq<char>, size: u64) -> Option<Seq<(u64, u64)>>;

/// Relies on `http_range_header::parse_range_header` followed by
/// `ParsedRanges::validate`: the outcome depends on the text and the size
/// alone, and every range handed back has `start <= end < size`. `validate`
/// subtracts one from the size, so the size must not be zero.
#[verifier::external_body]
fn validate_range_header(value: &str, size: u64) -> (r: Option<Vec<(u64, u64)>>)
    requires
        size > 0,
    ensures
        match r {
            None => validated_ranges_of(value@, size) is None,
            Some(v) => validated_ranges_of(value@, size) == Some(v@),
        },
        r matches Some(v) ==> forall|i: int|
            0 <= i < v@.len() ==> v@[i].0 <= v@[i].1 && v@[i].1 < size,
{
    match http_range_header::parse_range_header(value) {
        Ok(parsed) => parsed.validate(size).ok().map(
            |v| v.iter().map(|r| (*r.start(), *r.end())).collect(),
        ),
        Err(_) => None,
    }
}

/// What a request asks of a file of known size.
#[derive(Debug, Clone, Copy, PartialEq, Eq, Structural)]
pub enum RangeDecision {
    /// No `Range` header: the whole file.
    Whole,
    /// One satisfiable range, both ends inclusive.
    Partial { start: u64, end: u64 },
    /// A malformed, unsatisfiable or multiple range.
    Unsatisfiable,
}

/// A single range `[start, end]` that a file of `size` bytes holds.
pub open spec fn satisfiable(start: u64, end: u64, size: u64) -> bool {
    start <= end && end < size
}

/// The decision for the ranges that validation gave (`None`: no `Range` header).
pub open spec fn range_decision_of(
    validated: Option<Result<Seq<(u64, u64)>, ()>>,
    size: u64,
) -> RangeDecision {
    match validated {
        None => RangeDecision::Whole,
        Some(Err(_)) => RangeDecision::Unsatisfiable,
        Some(Ok(v)) => if v.len() == 1 && satisfiable(v[0].0, v[0].1, size) {
            RangeDecision::Partial { start: v[0].0, end: v[0].1 }
        } else {
            RangeDecision::Unsatisfiable
        },
    }
}

/// Decides how to answer, given what validating the `Range` header against a
/// file of `size` bytes gave: exactly one satisfiable range is served, any
/// other outcome is refused.
pub fn decide_range(validated: Option<Result<Vec<(u64, u64)>, ()>>, size: u64) -> (r:
    RangeDecision)
    ensures
        r == range_decision_of(
            match validated {
                None => None,
                Some(Err(e)) => Some(Err(e)),
                Some(Ok(v)) => Some(Ok(v@)),
            },
            size,
        ),
{
    match validated {
        None => RangeDecision::Whole,
        Some(Err(_)) => RangeDecision::Unsatisfiable,
        Some(Ok(v)) => {
            if v.len() == 1 {
                let (start, end) = v[0];
                if start <= end && end < size {
                    RangeDecision::Partial { start, end }
                } else {
                    RangeDecision::Unsatisfiable
                }
            } else {
                RangeDecision::Unsatisfiable
            }
        },
    }
}

/// The decision for an optional `Range` header value on a file of `size`
/// bytes: no header asks for the whole file; on an empty file no range can be
/// served.
pub open spec fn range_decision_for(header: Option<Seq<char>>, size: u64) -> RangeDecision {
    match header {
        None => RangeDecision::Whole,
        Some(h) => if size == 0 {
            RangeDecision::Unsatisfiable
        } else {
            range_decision_of(
                match validated_ranges_of(h, size) {
                    None => Some(Err(())),
                    Some(v) => Some(Ok(v)),
                },
                size,
            )
        },
    }
}

/// Parses and validates an optional `Range` header value against a file of
/// `size` bytes.
pub fn range_for_header(header: Option<&str>, size: u64) -> (r: RangeDecision)
    ensures
        r == range_decision_for(
            match header {
                None => None,
                Some(h) => Some(h@),
            },
            size,
        ),
        r matches RangeDecision::Partial { start, end } ==> satisfiable(start, end, size),
{
    match header {
        None => decide_range(None, size),
        Some(h) => {
            if size == 0 {
                return decide_range(Some(Err(())), size);
            }
            match validate_range_header(h, size) {
                None => decide_range(Some(Err(())), size),
                Some(v) => decide_range(Some(Ok(v)), size),
            }
        },
    }
}

/// The character of a decimal digit.
pub open spec fn digit_char(d: nat) -> char {
    if d == 0 {
        '0'
    } else if d == 1 {
        '1'
    } else if d == 2 {
        '2'
    } else if d == 3 {
        '3'
    } else if d == 4 {
        '4'
    } else if d == 5 {
        '5'
    } else if d == 6 {
        '6'
    } else if d == 7 {
        '7'
    } else if d == 8 {
        '8'
    } else {
        '9'
    }
}

/// The decimal digits of `n`, most significant first, without leading zeros.
pub open spec fn decimal(n: nat) -> Seq<char>
    decreases n,
{
    if n < 10 {
        seq![digit_char(n)]
    } else {
        decimal(n / 10).push(digit_char(n % 10))
    }
}

fn digit_str(d: u64) -> (r: &'static str)
    requires
        d < 10,
    ensures
        r@ == seq![digit_char(d as nat)],
{
    proof {
        reveal_strlit("0");
        reveal_strlit("1");
        reveal_strlit("2");
        reveal_strlit("3");
        reveal_strlit("4");
        reveal_strlit("5");
        reveal_strlit("6");
        reveal_strlit("7");
        reveal_strlit("8");
        reveal_strlit("9");
    }
    if d == 0 {
        "0"
    } else if d == 1 {
        "1"
    } else if d == 2 {
        "2"
    } else if d == 3 {
        "3"
    } else if d == 4 {
        "4"
    } else if d == 5 {
        "5"
    } else if d == 6 {
        "6"
    } else if d == 7 {
        "7"
    } else if d == 8 {
        "8"
    } else {
        "9"
    }
}

/// `v` written in decimal.
pub fn decimal_string(v: u64) -> (r: String)
    ensures
        r@ == decimal(v as nat),
{
    let mut n: u64 = v;
    let mut s = String::new();
    while n >= 10
        invariant
            decimal(v as nat) == decimal(n as nat) + s@,
        decreases n,
    {
        let d = n % 10;
        let ghost old_s = s@;
        s = String::from_str(digit_str(d)).concat(s.as_str());
        assert(decimal(n as nat) + old_s =~= decimal((n / 10) as nat) + s@);
        n = n / 10;
    }
    let ghost old_s = s@;
    s = String::from_str(digit_str(n)).concat(s.as_str());
    assert(decimal(n as nat) + old_s =~= s@);
    s
}

/// `bytes <start>-<end>/<size>`.
pub open spec fn content_range_text(start: u64, end: u64, size: u64) -> Seq<char> {
    seq!['b', 'y', 't', 'e', 's', ' '] + decimal(start as nat) + seq!['-'] + decimal(end as nat)
        + seq!['/'] + decimal(size as nat)
}

/// `bytes */<size>`.
pub open spec fn unsatisfied_range_text(size: u64) -> Seq<char> {
    seq!['b', 'y', 't', 'e', 's', ' ', '*', '/'] + decimal(size as nat)
}

/// The `Content-Range` value of a partial answer.
pub fn content_range(start: u64, end: u64, size: u64) -> (r: String)
    ensures
        r@ == content_range_text(start, end, size),
{
    proof {
        reveal_strlit("bytes ");
        reveal_strlit("-");
        reveal_strlit("/");
    }
    let a = decimal_string(start);
    let b = decimal_string(end);
    let c = decimal_string(size);
    String::from_str("bytes ").concat(a.as_str()).concat("-").concat(b.as_str()).concat(
        "/",
    ).concat(c.as_str())
}

/// The `Content-Range` value that goes with a refused range.
pub fn unsatisfied_range(size: u64) -> (r: String)
    ensures
        r@ == unsatisfied_range_text(size),
{
    proof {
        reveal_strlit("bytes */");
    }
    let c = decimal_string(size);
    String::from_str("bytes */").concat(c.as_str())
}

} // verus!
