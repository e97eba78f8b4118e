//! Textual rendering of a mission plan, for logging, not for parsing:
//! an 8-character prefix of the plan id's hexadecimal text form, then a
//! bracketed, comma-joined list of each node's item in sequence order.
//!
//! All structure is rendered here and pinned by contracts.  The text of
//! a double-precision number is floating-point work and is handed in by
//! the caller, one string per numeric field, in field order.
use vstd::prelude::*;
use vstd::string::StringExecFns;
use crate::mission::{MissionItem, MissionNode, MissionPlan, PlanModel, Uid, Waypoint};

verus! {

/// The character of one digit value, decimal or hexadecimal.
pub open spec fn digit_char(n: int) -> char {
    if n == 0 {
        '0'
    } else if n == 1 {
        '1'
    } else if n == 2 {
        '2'
    } else if n == 3 {
        '3'
    } else if n == 4 {
        '4'
    } else if n == 5 {
        '5'
    } else if n == 6 {
        '6'
    } else if n == 7 {
        '7'
    } else if n == 8 {
        '8'
    } else if n == 9 {
        '9'
    } else if n == 10 {
        'a'
    } else if n == 11 {
        'b'
    } else if n == 12 {
        'c'
    } else if n == 13 {
        'd'
    } else if n == 14 {
        'e'
    } else {
        'f'
    }
}

/// The decimal text of a natural number, most significant digit first.
pub open spec fn dec_chars(n: nat) -> Seq<char>
    decreases n,
{
    if n < 10 {
        seq![digit_char(n as int)]
    } else {
        dec_chars(n / 10) + seq![digit_char((n % 10) as int)]
    }
}

/// The first eight hexadecimal characters of an identifier's text form:
/// its top 32 bits, one character per nibble, most significant first.
pub open spec fn uid_prefix_chars(v: u128) -> Seq<char> {
    seq![
        digit_char(((v >> 124) & 0xf) as int),
        digit_char(((v >> 120) & 0xf) as int),
        digit_char(((v >> 116) & 0xf) as int),
        digit_char(((v >> 112) & 0xf) as int),
        digit_char(((v >> 108) & 0xf) as int),
        digit_char(((v >> 104) & 0xf) as int),
        digit_char(((v >> 100) & 0xf) as int),
        digit_char(((v >> 96) & 0xf) as int),
    ]
}

/// How many numeric fields of an item are rendered from caller-supplied
/// text: the double-precision fields, in field order.
pub open spec fn item_slots(it: MissionItem) -> nat {
    match it {
        MissionItem::Takeoff { .. } => 1,
        MissionItem::Waypoint(_) => 3,
        _ => 0,
    }
}

/// The views of a vector of strings.
pub open spec fn string_views(v: Seq<String>) -> Seq<Seq<char>> {
    v.map_values(|s: String| s@)
}

/// The views of a vector of vectors of strings.
pub open spec fn nested_string_views(v: Seq<Vec<String>>) -> Seq<Seq<Seq<char>>> {
    v.map_values(|x: Vec<String>| string_views(x@))
}

/// The text of one mission item, with `nums` the text of its
/// double-precision fields in field order.
pub open spec fn item_text(it: MissionItem, nums: Seq<Seq<char>>) -> Seq<char> {
    match it {
        MissionItem::Init => "Init"@,
        MissionItem::Takeoff { .. } => "Takeoff { altitude: "@ + nums[0] + " }"@,
        MissionItem::Waypoint(w) => match w {
            Waypoint::LocalOffset(_) => "Waypoint(LocalOffset(["@ + nums[0] + ", "@ + nums[1]
                + ", "@ + nums[2] + "]))"@,
            Waypoint::GlobalFixedHeight { .. } => "Waypoint(GlobalFixedHeight { lat: "@ + nums[0]
                + ", lon: "@ + nums[1] + ", alt: "@ + nums[2] + " })"@,
            Waypoint::GlobalRelativeHeight { .. } => "Waypoint(GlobalRelativeHeight { lat: "@
                + nums[0] + ", lon: "@ + nums[1] + ", height_diff: "@ + nums[2] + " })"@,
        },
        MissionItem::Delay(d) => "Delay(Duration { secs: "@ + dec_chars(d.secs as nat)
            + ", nanos: "@ + dec_chars(d.nanos as nat) + " })"@,
        MissionItem::FindSafeSpot => "FindSafeSpot"@,
        MissionItem::Transition => "Transition"@,
        MissionItem::Land => "Land"@,
        MissionItem::PrecLand => "PrecLand"@,
        MissionItem::End => "End"@,
    }
}

/// The comma-joined item texts of a node sequence, in sequence order.
pub open spec fn items_joined(nodes: Seq<MissionNode>, nums: Seq<Seq<Seq<char>>>) -> Seq<char>
    decreases nodes.len(),
{
    if nodes.len() == 0 {
        Seq::<char>::empty()
    } else if nodes.len() == 1 {
        item_text(nodes[0].item, nums[0])
    } else {
        items_joined(nodes.drop_last(), nums.drop_last()) + ", "@ + item_text(
            nodes.last().item,
            nums.last(),
        )
    }
}

/// The rendered text of a plan.
pub open spec fn plan_text(p: PlanModel, nums: Seq<Seq<Seq<char>>>) -> Seq<char> {
    "Mission "@ + uid_prefix_chars(p.id.value) + " ["@ + items_joined(p.nodes, nums) + "]"@
}

/// One digit as a string slice.
pub fn digit_str(n: u64) -> (r: &'static str)
    requires
        n < 16,
    ensures
        r@ == seq![digit_char(n as int)],
{
    proof {
        reveal_strlit("0");
        reveal_strlit("1");
        reveal_strlit("2");
        reveal_strlit("3");
        reveal_strlit("4");
        reveal_strlit("5");
        reveal_strlit("6");
        reveal_strlit("7");
        reveal_strlit("8");
        reveal_strlit("9");
        reveal_strlit("a");
        reveal_strlit("b");
        reveal_strlit("c");
        reveal_strlit("d");
        reveal_strlit("e");
        reveal_strlit("f");
    }
    if n == 0 {
        "0"
    } else if n == 1 {
        "1"
    } else if n == 2 {
        "2"
    } else if n == 3 {
        "3"
    } else if n == 4 {
        "4"
    } else if n == 5 {
        "5"
    } else if n == 6 {
        "6"
    } else if n == 7 {
        "7"
    } else if n == 8 {
        "8"
    } else if n == 9 {
        "9"
    } else if n == 10 {
        "a"
    } else if n == 11 {
        "b"
    } else if n == 12 {
        "c"
    } else if n == 13 {
        "d"
    } else if n == 14 {
        "e"
    } else {
        "f"
    }
}

/// The decimal text of a 64-bit value.
pub fn u64_text(n: u64) -> (r: String)
    ensures
        r@ == dec_chars(n as nat),
    decreases n,
{
    if n < 10 {
        let mut s = String::new();
        s.append(digit_str(n));
        proof {
            assert(s@ =~= dec_chars(n as nat));
        }
        s
    } else {
        let mut s = u64_text(n / 10);
        s.append(digit_str(n % 10));
        proof {
            assert(s@ =~= dec_chars(n as nat));
        }
        s
    }
}

impl Uid {
    /// The first eight hexadecimal characters of this identifier's text
    /// form.
    pub fn prefix_text(&self) -> (r: String)
        ensures
            r@ == uid_prefix_chars(self.value),
    {
        let v = self.value;
        proof {
            assert((v >> 124) & 0xf < 16 && (v >> 120) & 0xf < 16 && (v >> 116) & 0xf < 16 && (v
                >> 112) & 0xf < 16 && (v >> 108) & 0xf < 16 && (v >> 104) & 0xf < 16 && (v >> 100)
                & 0xf < 16 && (v >> 96) & 0xf < 16) by (bit_vector);
        }
        let mut s = String::new();
        s.append(digit_str(((v >> 124) & 0xf) as u64));
        s.append(digit_str(((v >> 120) & 0xf) as u64));
        s.append(digit_str(((v >> 116) & 0xf) as u64));
        s.append(digit_str(((v >> 112) & 0xf) as u64));
        s.append(digit_str(((v >> 108) & 0xf) as u64));
        s.append(digit_str(((v >> 104) & 0xf) as u64));
        s.append(digit_str(((v >> 100) & 0xf) as u64));
        s.append(digit_str(((v >> 96) & 0xf) as u64));
        proof {
            assert(s@ =~= uid_prefix_chars(self.value));
        }
        s
    }
}

impl MissionItem {
    /// The text of this item; `nums` carries the text of its
    /// double-precision fields, one string per field, in field order.
    pub fn rendered(&self, nums: &Vec<String>) -> (r: String)
        requires
            nums@.len() == item_slots(*self),
        ensures
            r@ == item_text(*self, string_views(nums@)),
    {
        let mut s = String::new();
        match self {
            MissionItem::Init => {
                s.append("Init");
            },
            MissionItem::Takeoff { .. } => {
                s.append("Takeoff { altitude: ");
                s.append(nums[0].as_str());
                s.append(" }");
            },
            MissionItem::Waypoint(w) => {
                match w {
                    Waypoint::LocalOffset(_) => {
                        s.append("Waypoint(LocalOffset([");
                        s.append(nums[0].as_str());
                        s.append(", ");
                        s.append(nums[1].as_str());
                        s.append(", ");
                        s.append(nums[2].as_str());
                        s.append("]))");
                    },
                    Waypoint::GlobalFixedHeight { .. } => {
                        s.append("Waypoint(GlobalFixedHeight { lat: ");
                        s.append(nums[0].as_str());
                        s.append(", lon: ");
                        s.append(nums[1].as_str());
                        s.append(", alt: ");
                        s.append(nums[2].as_str());
                        s.append(" })");
                    },
                    Waypoint::GlobalRelativeHeight { .. } => {
                        s.append("Waypoint(GlobalRelativeHeight { lat: ");
                        s.append(nums[0].as_str());
                        s.append(", lon: ");
                        s.append(nums[1].as_str());
                        s.append(", height_diff: ");
                        s.append(nums[2].as_str());
                        s.append(" })");
                    },
                }
            },
            MissionItem::Delay(d) => {
                s.append("Delay(Duration { secs: ");
                let secs = u64_text(d.secs);
                s.append(secs.as_str());
                s.append(", nanos: ");
                let nanos = u64_text(d.nanos as u64);
                s.append(nanos.as_str());
                s.append(" })");
            },
            MissionItem::FindSafeSpot => {
                s.append("FindSafeSpot");
            },
            MissionItem::Transition => {
                s.append("Transition");
            },
            MissionItem::Land => {
                s.append("Land");
            },
            MissionItem::PrecLand => {
                s.append("PrecLand");
            },
            MissionItem::End => {
                s.append("End");
            },
        }
        proof {
            assert(s@ =~= item_text(*self, string_views(nums@)));
        }
        s
    }
}

impl MissionPlan {
    /// The rendered text of this plan: `Mission `, the first eight
    /// characters of the id's hexadecimal form, and the bracketed,
    /// comma-joined item texts in sequence order.  `nums` carries, per
    /// node, the text of the item's double-precision fields.
    pub fn rendered(&self, nums: &Vec<Vec<String>>) -> (r: String)
        requires
            nums@.len() == self.nodes@.len(),
            forall|i: int|
                0 <= i < nums@.len() ==> (#[trigger] nums@[i])@.len() == item_slots(
                    self.nodes@[i].item,
                ),
        ensures
            r@ == plan_text(self@, nested_string_views(nums@)),
    {
        let mut s = String::new();
        s.append("Mission ");
        let prefix = self.id.prefix_text();
        s.append(prefix.as_str());
        s.append(" [");
        let n: usize = self.nodes.len();
        let mut i: usize = 0;
        proof {
            assert(self.nodes@.take(0) =~= Seq::<MissionNode>::empty());
        }
        while i < n
            invariant
                n == self.nodes@.len(),
                nums@.len() == n,
                i <= n,
                forall|j: int|
                    0 <= j < nums@.len() ==> (#[trigger] nums@[j])@.len() == item_slots(
                        self.nodes@[j].item,
                    ),
                s@ == "Mission "@ + uid_prefix_chars(self.id.value) + " ["@ + items_joined(
                    self.nodes@.take(i as int),
                    nested_string_views(nums@).take(i as int),
                ),
            decreases n - i,
        {
            if i > 0 {
                s.append(", ");
            }
            let it = self.nodes[i].item.rendered(&nums[i]);
            s.append(it.as_str());
            proof {
                let nodes_pre = self.nodes@.take(i as int + 1);
                let nums_pre = nested_string_views(nums@).take(i as int + 1);
                assert(nodes_pre.drop_last() =~= self.nodes@.take(i as int));
                assert(nums_pre.drop_last() =~= nested_string_views(nums@).take(i as int));
                assert(nums_pre.last() == string_views(nums@[i as int]@));
                assert(nodes_pre.last() == self.nodes@[i as int]);
                assert(nodes_pre[0] == self.nodes@[0]);
                assert(nums_pre[0] == nested_string_views(nums@)[0]);
                assert(s@ =~= "Mission "@ + uid_prefix_chars(self.id.value) + " ["@
                    + items_joined(nodes_pre, nums_pre));
            }
            i += 1;
        }
        s.append("]");
        proof {
            assert(self.nodes@.take(n as int) =~= self.nodes@);
            assert(nested_string_views(nums@).take(n as int) =~= nested_string_views(nums@));
            assert(s@ =~= plan_text(self@, nested_string_views(nums@)));
        }
        s
    }
}

} // verus!
