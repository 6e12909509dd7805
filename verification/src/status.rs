use std::cmp::Ordering;
use vstd::prelude::*;

verus! {

/// The ventilation status of a room.
#[derive(Debug)]
pub enum Status {
    /// The default state, optionally applying a minimum amount of ventilation
    /// based on the total ventilation need.
    Default,
    /// The room is ventilated at the low speed.
    Low,
    /// The room is ventilated at the medium speed.
    Medium,
    /// The room is ventilated at the medium high speed.
    MediumHigh,
    /// The room is ventilated at the high speed.
    High,
    /// Ventilation is running at the maximum speed.
    Maximum,
    /// Ventilation is enabled in response to an RF button.
    ///
    /// The wrapped value is the old status to transition back to.
    Button(Box<Status>),
    /// Ventilation is enabled in response to high humidity.
    Humid,
}

/// The position of a status in the ladder from `Default` up to `Humid`.
pub open spec fn status_rank(s: Status) -> int {
    match s {
        Status::Default => 0,
        Status::Low => 1,
        Status::Medium => 2,
        Status::MediumHigh => 3,
        Status::High => 4,
        Status::Maximum => 5,
        Status::Button(_) => 6,
        Status::Humid => 7,
    }
}

/// Compares two integers.
pub open spec fn rank_order(a: int, b: int) -> Ordering {
    if a < b {
        Ordering::Less
    } else if a == b {
        Ordering::Equal
    } else {
        Ordering::Greater
    }
}

/// How `Status::cmp` orders two statuses: by their rank, two `Button`
/// statuses by the statuses they wrap, except that a `Button` status also
/// compares as less than `Maximum`.
pub open spec fn status_order(a: Status, b: Status) -> Ordering
    decreases a,
{
    match a {
        Status::Button(x) => match b {
            Status::Button(y) => status_order(*x, *y),
            Status::Maximum => Ordering::Less,
            _ => rank_order(status_rank(a), status_rank(b)),
        },
        _ => rank_order(status_rank(a), status_rank(b)),
    }
}

/// Whether `a` compares as greater than or equal to `b` (what `a >= b`
/// tells).
pub open spec fn status_at_least(a: Status, b: Status) -> bool {
    !(status_order(a, b) is Less)
}

/// The name under which a status is shown.
pub open spec fn status_label(s: Status) -> Seq<char> {
    match s {
        Status::Default => "Default"@,
        Status::Low => "Low"@,
        Status::Medium => "Medium"@,
        Status::MediumHigh => "MediumHigh"@,
        Status::High => "High"@,
        Status::Maximum => "Maximum"@,
        Status::Button(_) => "Button"@,
        Status::Humid => "Humid"@,
    }
}

impl PartialEq for Status {
    fn eq(&self, other: &Self) -> (same: bool)
        decreases self,
    {
        match (self, other) {
            (Status::Default, Status::Default) => true,
            (Status::Low, Status::Low) => true,
            (Status::Medium, Status::Medium) => true,
            (Status::MediumHigh, Status::MediumHigh) => true,
            (Status::High, Status::High) => true,
            (Status::Maximum, Status::Maximum) => true,
            (Status::Button(a), Status::Button(b)) => (**a).eq(&**b),
            (Status::Humid, Status::Humid) => true,
            _ => false,
        }
    }
}

impl vstd::std_specs::cmp::PartialEqSpecImpl for Status {
    open spec fn obeys_eq_spec() -> bool {
        true
    }

    open spec fn eq_spec(&self, other: &Self) -> bool {
        *self == *other
    }
}

impl Eq for Status {
}

impl Clone for Status {
    fn clone(&self) -> (s: Self)
        ensures
            s == *self,
        decreases self,
    {
        match self {
            Status::Default => Status::Default,
            Status::Low => Status::Low,
            Status::Medium => Status::Medium,
            Status::MediumHigh => Status::MediumHigh,
            Status::High => Status::High,
            Status::Maximum => Status::Maximum,
            Status::Button(old) => Status::Button(Box::new((**old).clone())),
            Status::Humid => Status::Humid,
        }
    }
}

impl Status {
    pub fn is_humid(&self) -> (humid: bool)
        ensures
            humid == (*self is Humid),
    {
        matches!(self, Status::Humid)
    }

    /// The name of the status, as it is shown in messages.
    pub fn to_string(&self) -> (label: String)
        ensures
            label@ == status_label(*self),
    {
        let s: &str = match self {
            Status::Default => "Default",
            Status::Low => "Low",
            Status::Medium => "Medium",
            Status::MediumHigh => "MediumHigh",
            Status::High => "High",
            Status::Maximum => "Maximum",
            Status::Button(_) => "Button",
            Status::Humid => "Humid",
        };
        s.to_owned()
    }

    pub fn cmp(&self, other: &Self) -> (order: Ordering)
        ensures
            order == status_order(*self, *other),
        decreases self,
    {
        match (self, other) {
            (Status::Default, Status::Default) => Ordering::Equal,
            (Status::Default, _) => Ordering::Less,
            (Status::Low, Status::Low) => Ordering::Equal,
            (Status::Low, Status::Default) => Ordering::Greater,
            (Status::Low, _) => Ordering::Less,
            (Status::Medium, Status::Medium) => Ordering::Equal,
            (Status::Medium, Status::Default | Status::Low) => Ordering::Greater,
            (Status::Medium, _) => Ordering::Less,
            (Status::MediumHigh, Status::MediumHigh) => Ordering::Equal,
            (Status::MediumHigh, Status::Default | Status::Low | Status::Medium) => Ordering::Greater,
            (Status::MediumHigh, _) => Ordering::Less,
            (Status::High, Status::High) => Ordering::Equal,
            (
                Status::High,
                Status::Default | Status::Low | Status::Medium | Status::MediumHigh,
            ) => Ordering::Greater,
            (Status::High, _) => Ordering::Less,
            (Status::Maximum, Status::Maximum) => Ordering::Equal,
            (Status::Maximum, Status::Button(_) | Status::Humid) => Ordering::Less,
            (Status::Maximum, _) => Ordering::Greater,
            (Status::Button(a), Status::Button(b)) => (**a).cmp(&**b),
            (Status::Button(_), Status::Humid | Status::Maximum) => Ordering::Less,
            (Status::Button(_), _) => Ordering::Greater,
            (Status::Humid, Status::Humid) => Ordering::Equal,
            (Status::Humid, _) => Ordering::Greater,
        }
    }
}

impl PartialOrd for Status {
    fn partial_cmp(&self, other: &Self) -> (order: Option<Ordering>) {
        Some(self.cmp(other))
    }
}

impl vstd::std_specs::cmp::PartialOrdSpecImpl for Status {
    open spec fn obeys_partial_cmp_spec() -> bool {
        true
    }

    open spec fn partial_cmp_spec(&self, other: &Self) -> Option<Ordering> {
        Some(status_order(*self, *other))
    }
}

/// Law: every status compares equal to itself.
pub proof fn lemma_status_order_reflexive(s: Status)
    ensures
        status_order(s, s) == Ordering::Equal,
    decreases s,
{
    if let Status::Button(x) = s {
        lemma_status_order_reflexive(*x);
    }
}

/// Law: two statuses compare as equal exactly when they are the same
/// status, as `==` tells.
pub proof fn lemma_status_order_equal_iff_same(a: Status, b: Status)
    ensures
        status_order(a, b) == Ordering::Equal <==> a == b,
    decreases a,
{
    match (a, b) {
        (Status::Button(x), Status::Button(y)) => {
            lemma_status_order_equal_iff_same(*x, *y);
        },
        _ => {},
    }
}

/// The pairs on which `status_order` is antisymmetric: all pairs but those
/// that compare `Maximum` with a `Button` status, at any depth of `Button`.
pub open spec fn orderly_pair(a: Status, b: Status) -> bool
    decreases a,
{
    match (a, b) {
        (Status::Button(x), Status::Button(y)) => orderly_pair(*x, *y),
        (Status::Button(_), Status::Maximum) => false,
        (Status::Maximum, Status::Button(_)) => false,
        _ => true,
    }
}

/// Law: swapping the operands swaps `Less` and `Greater`, except when
/// `Maximum` meets a `Button` status, which both compare as the lesser.
pub proof fn lemma_status_order_antisymmetric(a: Status, b: Status)
    requires
        orderly_pair(a, b),
    ensures
        status_order(a, b) == Ordering::Less <==> status_order(b, a) == Ordering::Greater,
        status_order(a, b) == Ordering::Equal <==> status_order(b, a) == Ordering::Equal,
    decreases a,
{
    if let (Status::Button(x), Status::Button(y)) = (a, b) {
        lemma_status_order_antisymmetric(*x, *y);
    }
}

/// Law: the order is transitive, as long as neither step compares
/// `Maximum` with a `Button` status.
pub proof fn lemma_status_order_transitive(a: Status, b: Status, c: Status)
    requires
        orderly_pair(a, b),
        orderly_pair(b, c),
        status_order(a, b) == Ordering::Less,
        status_order(b, c) == Ordering::Less,
    ensures
        status_order(a, c) == Ordering::Less,
    decreases a,
{
    match (a, b, c) {
        (Status::Button(x), Status::Button(y), Status::Button(z)) => {
            lemma_status_order_transitive(*x, *y, *z);
        },
        _ => {},
    }
}

/// Law (the exception above): `Maximum` and a `Button` status both compare
/// as less than the other.
pub proof fn lemma_status_order_maximum_button(inner: Status)
    ensures
        status_order(Status::Maximum, Status::Button(Box::new(inner))) == Ordering::Less,
        status_order(Status::Button(Box::new(inner)), Status::Maximum) == Ordering::Less,
{
}

/// Law: statuses other than `Button` are ordered by their rank, a total
/// order.
pub proof fn lemma_status_order_by_rank(a: Status, b: Status)
    requires
        !(a is Button),
        !(b is Button),
    ensures
        status_order(a, b) == rank_order(status_rank(a), status_rank(b)),
{
}


/// Law: the ladder of statuses. `Default` is below every other status and
/// `Humid` above every other; `Low`, `Medium`, `MediumHigh`, `High` and
/// `Maximum` follow each other in that order; a `Button` status is above
/// `High` and below `Humid`.
pub proof fn lemma_status_ladder(s: Status, inner: Status)
    ensures
        !(s is Default) ==> status_order(Status::Default, s) == Ordering::Less,
        !(s is Humid) ==> status_order(Status::Humid, s) == Ordering::Greater,
        status_order(Status::Low, Status::Medium) == Ordering::Less,
        status_order(Status::Medium, Status::MediumHigh) == Ordering::Less,
        status_order(Status::MediumHigh, Status::High) == Ordering::Less,
        status_order(Status::High, Status::Maximum) == Ordering::Less,
        status_order(Status::High, Status::Button(Box::new(inner))) == Ordering::Less,
        status_order(Status::Button(Box::new(inner)), Status::Humid) == Ordering::Less,
{
}


/// Law: a status is at least itself; it is at least another exactly when it
/// does not compare as less; so a higher rung is at least a lower one and
/// not the other way round.
pub proof fn lemma_status_at_least_rules(a: Status, b: Status)
    ensures
        status_at_least(a, a),
        status_at_least(a, b) <==> status_order(a, b) != Ordering::Less,
        status_at_least(Status::High, Status::Medium),
        !status_at_least(Status::Medium, Status::High),
{
    lemma_status_order_reflexive(a);
}

} // verus!
