//! Texts shown next to players: a place ("1st", "2nd", "3rd", "4th", ...) and a name with the
//! player's hash code.
use vstd::prelude::*;
use vstd::string::StringExecFns;

verus! {

/// The decimal digit `d` (below ten).
pub open spec fn digit_char(d: nat) -> char {
    if d == 0 {
        '0'
    } else if d == 1 {
        '1'
    } else if d == 2 {
        '2'
    } else if d == 3 {
        '3'
    } else if d == 4 {
        '4'
    } else if d == 5 {
        '5'
    } else if d == 6 {
        '6'
    } else if d == 7 {
        '7'
    } else if d == 8 {
        '8'
    } else {
        '9'
    }
}

/// The decimal writing of `n`, without leading zeros.
pub open spec fn decimal(n: nat) -> Seq<char>
    decreases n,
{
    if n < 10 {
        seq![digit_char(n)]
    } else {
        decimal(n / 10).push(digit_char(n % 10))
    }
}

/// The label of a place: "1st", "2nd", "3rd", and the number followed by "th" for any other.
pub open spec fn rank_label_of(rank: nat) -> Seq<char> {
    if rank == 1 {
        seq!['1', 's', 't']
    } else if rank == 2 {
        seq!['2', 'n', 'd']
    } else if rank == 3 {
        seq!['3', 'r', 'd']
    } else {
        decimal(rank) + seq!['t', 'h']
    }
}

/// Appends the decimal writing of `n` to `s`.
fn push_decimal(s: &mut String, n: u64)
    ensures
        final(s)@ == old(s)@ + decimal(n as nat),
    decreases n,
{
    if n >= 10 {
        push_decimal(s, n / 10);
    }
    let d = n % 10;
    let digit = if d == 0 {
        "0"
    } else if d == 1 {
        "1"
    } else if d == 2 {
        "2"
    } else if d == 3 {
        "3"
    } else if d == 4 {
        "4"
    } else if d == 5 {
        "5"
    } else if d == 6 {
        "6"
    } else if d == 7 {
        "7"
    } else if d == 8 {
        "8"
    } else {
        "9"
    };
    proof {
        reveal_strlit("0");
        reveal_strlit("1");
        reveal_strlit("2");
        reveal_strlit("3");
        reveal_strlit("4");
        reveal_strlit("5");
        reveal_strlit("6");
        reveal_strlit("7");
        reveal_strlit("8");
        reveal_strlit("9");
        assert(digit@ =~= seq![digit_char(d as nat)]);
    }
    let ghost mid = s@;
    s.append(digit);
    proof {
        if n >= 10 {
            assert(decimal(n as nat) == decimal((n / 10) as nat).push(digit_char((n % 10) as nat)));
            assert(s@ =~= old(s)@ + decimal(n as nat));
        } else {
            assert(decimal(n as nat) == seq![digit_char(n as nat)]);
            assert(s@ =~= old(s)@ + decimal(n as nat));
        }
    }
}

/// The label of a place in a ranking.
pub fn rank_label(rank: usize) -> (r: String)
    ensures
        r@ == rank_label_of(rank as nat),
{
    proof {
        reveal_strlit("1st");
        reveal_strlit("2nd");
        reveal_strlit("3rd");
        reveal_strlit("th");
    }
    if rank == 1 {
        String::from_str("1st")
    } else if rank == 2 {
        String::from_str("2nd")
    } else if rank == 3 {
        String::from_str("3rd")
    } else {
        let mut s = String::new();
        push_decimal(&mut s, rank as u64);
        s.append("th");
        s
    }
}

/// A player's name as shown: the name, then `#` and the hash code when there is one.
pub open spec fn name_with_hash_of(name: Seq<char>, hash: Seq<char>) -> Seq<char> {
    if hash.len() == 0 {
        name
    } else {
        name + seq!['#'] + hash
    }
}

/// A player's name as shown.
pub fn name_with_hash(name: &str, hash: &str) -> (r: String)
    ensures
        r@ == name_with_hash_of(name@, hash@),
{
    let mut s = String::from_str(name);
    if !hash.is_empty() {
        proof {
            reveal_strlit("#");
        }
        s.append("#");
        s.append(hash);
    }
    s
}

/// The summary of a keyframe sequence's targets: "(no targets)", the only target, or the
/// first target followed by ", +" and the number of the others.
pub open spec fn target_summary_of(targets: Seq<Seq<char>>) -> Seq<char> {
    if targets.len() == 0 {
        "(no targets)"@
    } else if targets.len() == 1 {
        targets[0]
    } else {
        targets[0] + seq![',', ' ', '+'] + decimal((targets.len() - 1) as nat)
    }
}

/// The summary of a keyframe sequence's targets.
pub fn target_summary(targets: &Vec<String>) -> (r: String)
    ensures
        r@ == target_summary_of(targets@.map_values(|t: String| t@)),
{
    let ghost tv = targets@.map_values(|t: String| t@);
    if targets.len() == 0 {
        String::from_str("(no targets)")
    } else if targets.len() == 1 {
        assert(tv[0] == targets@[0]@);
        targets[0].clone()
    } else {
        assert(tv[0] == targets@[0]@);
        proof {
            reveal_strlit(", +");
        }
        let mut s = targets[0].clone();
        s.append(", +");
        push_decimal(&mut s, (targets.len() - 1) as u64);
        s
    }
}

/// A keyframe sequence's targets separated by ", ".
pub open spec fn joined_of(targets: Seq<Seq<char>>) -> Seq<char>
    decreases targets.len(),
{
    if targets.len() == 0 {
        Seq::empty()
    } else if targets.len() == 1 {
        targets[0]
    } else {
        joined_of(targets.drop_last()) + seq![',', ' '] + targets.last()
    }
}

/// The targets separated by ", ".
pub fn join_targets(targets: &Vec<String>) -> (r: String)
    ensures
        r@ == joined_of(targets@.map_values(|t: String| t@)),
{
    let ghost tv = targets@.map_values(|t: String| t@);
    let mut s = String::new();
    let n = targets.len();
    let mut i: usize = 0;
    proof {
        reveal_strlit(", ");
        assert(tv.take(0) =~= Seq::<Seq<char>>::empty());
    }
    while i < n
        invariant
            n == targets@.len(),
            tv == targets@.map_values(|t: String| t@),
            i <= n,
            s@ == joined_of(tv.take(i as int)),
            ", "@ == seq![',', ' '],
        decreases n - i,
    {
        proof {
            assert(tv.take(i + 1).drop_last() =~= tv.take(i as int));
            assert(tv.take(i + 1).last() == targets@[i as int]@);
        }
        if i > 0 {
            s.append(", ");
        }
        s.append(targets[i].as_str());
        proof {
            if i == 0 {
                assert(tv.take(1) =~= seq![targets@[0]@]);
                assert(s@ =~= targets@[0]@);
            } else {
                assert(s@ =~= joined_of(tv.take(i as int)) + seq![',', ' '] + targets@[i as int]@);
            }
        }
        i = i + 1;
    }
    proof {
        assert(tv.take(n as int) =~= tv);
    }
    s
}

/// The state shown in the game's status bar.
#[derive(Debug, Clone, Copy, PartialEq, Eq, Structural)]
pub enum GameStatus {
    /// The engine is starting
    Loading,
    /// A race is running
    Running,
    /// Waiting for a race
    Ready,
}

/// The status bar's state: loading until the engine is up, then running or ready.
pub fn game_status(initialized: bool, running: bool) -> (r: GameStatus)
    ensures
        r == if !initialized {
            GameStatus::Loading
        } else if running {
            GameStatus::Running
        } else {
            GameStatus::Ready
        },
{
    if !initialized {
        GameStatus::Loading
    } else if running {
        GameStatus::Running
    } else {
        GameStatus::Ready
    }
}

/// The status bar's text: "Initializing...", "Frame: " and the frame number, or "Ready".
pub fn game_status_text(initialized: bool, running: bool, frame: u64) -> (r: String)
    ensures
        r@ == if !initialized {
            "Initializing..."@
        } else if running {
            "Frame: "@ + decimal(frame as nat)
        } else {
            "Ready"@
        },
{
    if !initialized {
        String::from_str("Initializing...")
    } else if running {
        let mut s = String::from_str("Frame: ");
        push_decimal(&mut s, frame);
        s
    } else {
        String::from_str("Ready")
    }
}

} // verus!
