use vstd::prelude::*;

verus! {

/// What probing one shard file of a timestep revealed.
#[derive(Clone, Copy, PartialEq, Eq, Structural, Debug)]
pub enum ShardEvent {
    /// The shard file does not exist: the shard range ends here.
    Missing,
    /// The shard file exists but is empty (that worker produced no
    /// particles this timestep; the scan goes on).
    Empty,
    /// The shard decoded, and `matching` of its grain rows carry the
    /// requested particle id.
    Rows { matching: usize },
}

/// The state of the shard scan for one (timestep, particle id) request.
#[derive(Clone, Copy, PartialEq, Eq, Structural, Debug)]
pub enum ScanState {
    /// Still looking; `shard` is the next shard index to probe.
    Scanning { shard: u64 },
    /// All the particle's grain rows were found in shard `shard`.
    Found { shard: u64 },
    /// Shard `shard` does not exist: the particle is absent at this
    /// timestep.
    Exhausted { shard: u64 },
}

/// The transition relation of the shard scan. From `Scanning`, a missing
/// file ends the scan as `Exhausted`, an empty or non-matching shard moves
/// it to the next index, and a shard with at least one matching row ends it
/// as `Found`. `Found` and `Exhausted` are final.
pub open spec fn spec_scan_step(state: ScanState, event: ShardEvent) -> ScanState {
    match state {
        ScanState::Scanning { shard } => match event {
            ShardEvent::Missing => ScanState::Exhausted { shard },
            ShardEvent::Empty => ScanState::Scanning { shard: (shard + 1) as u64 },
            ShardEvent::Rows { matching } => {
                if matching == 0 {
                    ScanState::Scanning { shard: (shard + 1) as u64 }
                } else {
                    ScanState::Found { shard }
                }
            },
        },
        _ => state,
    }
}

/// One step of the shard scan. The caller probes the shard the state asks
/// for and feeds the outcome back in; once the scan has stopped (`Found` or
/// `Exhausted`) every further event leaves it where it stopped.
pub fn scan_step(state: ScanState, event: ShardEvent) -> (next: ScanState)
    requires
        state matches ScanState::Scanning { shard } ==> shard < u64::MAX,
    ensures
        next == spec_scan_step(state, event),
{
    match state {
        ScanState::Scanning { shard } => match event {
            ShardEvent::Missing => ScanState::Exhausted { shard },
            ShardEvent::Empty => ScanState::Scanning { shard: shard + 1 },
            ShardEvent::Rows { matching } => {
                if matching == 0 {
                    ScanState::Scanning { shard: shard + 1 }
                } else {
                    ScanState::Found { shard }
                }
            },
        },
        other => other,
    }
}

/// The state after folding the scan over a sequence of shard events,
/// starting at shard 0.
pub open spec fn spec_scan_run(events: Seq<ShardEvent>) -> ScanState
    decreases events.len(),
{
    if events.len() == 0 {
        ScanState::Scanning { shard: 0 }
    } else {
        spec_scan_step(spec_scan_run(events.drop_last()), events.last())
    }
}

/// An event that keeps the scan going: an empty shard, or one whose rows
/// carry no matching id.
pub open spec fn event_moves_on(event: ShardEvent) -> bool {
    event == ShardEvent::Empty || event == (ShardEvent::Rows { matching: 0 })
}

/// Run the scan over a given sequence of shard events, as a driver that
/// probes real files would feed them in.
pub fn scan_shards(events: &Vec<ShardEvent>) -> (r: ScanState)
    ensures
        r == spec_scan_run(events@),
{
    let mut state = ScanState::Scanning { shard: 0 };
    proof {
        assert(events@.take(0) =~= Seq::<ShardEvent>::empty());
    }
    let mut i: usize = 0;
    while i < events.len()
        invariant
            i <= events@.len(),
            state == spec_scan_run(events@.take(i as int)),
            state matches ScanState::Scanning { shard } ==> shard <= i,
        decreases events@.len() - i,
    {
        proof {
            assert(events@.take(i + 1).drop_last() =~= events@.take(i as int));
            assert(events@.take(i + 1).last() == events@[i as int]);
        }
        state = scan_step(state, events[i]);
        i = i + 1;
    }
    proof {
        assert(events@.take(events@.len() as int) =~= events@);
    }
    state
}

/// While every probed shard only moves the scan on, the scan is still
/// running, and the next shard to probe is exactly the number of shards
/// already probed: shard indices are visited strictly in increasing order,
/// none skipped.
pub proof fn lemma_scan_advances(events: Seq<ShardEvent>, i: int)
    requires
        0 <= i <= events.len(),
        events.len() <= u64::MAX,
        forall|j: int| 0 <= j < i ==> event_moves_on(#[trigger] events[j]),
    ensures
        spec_scan_run(events.take(i)) == (ScanState::Scanning { shard: i as u64 }),
    decreases i,
{
    if i > 0 {
        lemma_scan_advances(events, i - 1);
        assert(events.take(i).drop_last() =~= events.take(i - 1));
        assert(events.take(i).last() == events[i - 1]);
    } else {
        assert(events.take(0) =~= Seq::<ShardEvent>::empty());
    }
}

/// The scan stops at the first shard holding a matching row: if every
/// shard before `f` was empty or matchless and shard `f` has at least one
/// matching row, running the scan over the first `f + 1` events ends in
/// `Found` at exactly shard `f`.
pub proof fn lemma_scan_finds_first_match(events: Seq<ShardEvent>, f: int)
    requires
        0 <= f < events.len(),
        events.len() <= u64::MAX,
        forall|j: int| 0 <= j < f ==> event_moves_on(#[trigger] events[j]),
        events[f] matches ShardEvent::Rows { matching } && matching > 0,
    ensures
        spec_scan_run(events.take(f + 1)) == (ScanState::Found { shard: f as u64 }),
{
    lemma_scan_advances(events, f);
    assert(events.take(f + 1).drop_last() =~= events.take(f));
    assert(events.take(f + 1).last() == events[f]);
}

/// Exhaustion is observable: if every shard before `e` was empty or
/// matchless and shard `e`'s file is missing, running the scan over the
/// first `e + 1` events ends as `Exhausted` at exactly shard `e`.
pub proof fn lemma_scan_exhausts_at_missing(events: Seq<ShardEvent>, e: int)
    requires
        0 <= e < events.len(),
        events.len() <= u64::MAX,
        forall|j: int| 0 <= j < e ==> event_moves_on(#[trigger] events[j]),
        events[e] == ShardEvent::Missing,
    ensures
        spec_scan_run(events.take(e + 1)) == (ScanState::Exhausted { shard: e as u64 }),
{
    lemma_scan_advances(events, e);
    assert(events.take(e + 1).drop_last() =~= events.take(e));
    assert(events.take(e + 1).last() == events[e]);
}

/// Once the scan has stopped, later events change nothing: the scan never
/// continues past the shard where it found the particle or found the range
/// exhausted.
pub proof fn lemma_scan_never_resumes(events: Seq<ShardEvent>, i: int)
    requires
        0 <= i <= events.len(),
        !(spec_scan_run(events.take(i)) is Scanning),
    ensures
        spec_scan_run(events) == spec_scan_run(events.take(i)),
    decreases events.len() - i,
{
    if i < events.len() {
        assert(events.take(i + 1).drop_last() =~= events.take(i));
        assert(events.take(i + 1).last() == events[i]);
        lemma_scan_never_resumes(events, i + 1);
    } else {
        assert(events.take(i) =~= events);
    }
}

/// The decimal digits of `n`, most significant first.
pub open spec fn dec_digits(n: nat) -> Seq<u8>
    decreases n,
{
    if n < 10 {
        seq![(48 + n) as u8]
    } else {
        dec_digits(n / 10).push((48 + n % 10) as u8)
    }
}

/// `digits` left-padded with zeros to at least `width` bytes.
pub open spec fn zero_padded(digits: Seq<u8>, width: nat) -> Seq<u8> {
    if digits.len() >= width {
        digits
    } else {
        Seq::new((width - digits.len()) as nat, |i: int| 48u8) + digits
    }
}

fn dec_digits_exec(n: u64) -> (r: Vec<u8>)
    ensures
        r@ == dec_digits(n as nat),
        r@.len() >= 1,
    decreases n,
{
    if n < 10 {
        let mut v: Vec<u8> = Vec::new();
        v.push(48 + n as u8);
        proof {
            assert(v@ =~= dec_digits(n as nat));
        }
        v
    } else {
        let mut v = dec_digits_exec(n / 10);
        v.push(48 + (n % 10) as u8);
        proof {
            assert(v@ =~= dec_digits(n as nat));
        }
        v
    }
}

fn padded_dec(n: u64, width: usize) -> (r: Vec<u8>)
    ensures
        r@ == zero_padded(dec_digits(n as nat), width as nat),
{
    let mut digits = dec_digits_exec(n);
    if digits.len() >= width {
        return digits;
    }
    let pad = width - digits.len();
    let mut v: Vec<u8> = Vec::new();
    let mut k: usize = 0;
    while k < pad
        invariant
            k <= pad,
            v@.len() == k,
            forall|t: int| 0 <= t < k ==> v@[t] == 48u8,
        decreases pad - k,
    {
        v.push(48);
        k = k + 1;
    }
    v.append(&mut digits);
    proof {
        assert(v@ =~= zero_padded(dec_digits(n as nat), width as nat));
    }
    v
}

/// The name of a shard file: `<prefix>-<timestep>.<shard>.dat`, with the
/// timestep zero-padded to at least five digits and the shard index to at
/// least four, as the parallel workers write them.
pub open spec fn spec_shard_file_name(prefix: Seq<u8>, timestep: nat, shard: nat) -> Seq<u8> {
    prefix + seq![45u8] + zero_padded(dec_digits(timestep), 5) + seq![46u8] + zero_padded(
        dec_digits(shard),
        4,
    ) + seq![46u8, 100u8, 97u8, 116u8]
}

/// Build the file name under which a timestep's shard is expected, as
/// bytes: `<prefix>-<timestep:5>.<shard:4>.dat`.
pub fn shard_file_name(prefix: &Vec<u8>, timestep: u64, shard: u64) -> (r: Vec<u8>)
    ensures
        r@ == spec_shard_file_name(prefix@, timestep as nat, shard as nat),
{
    let mut r: Vec<u8> = Vec::new();
    let mut i: usize = 0;
    while i < prefix.len()
        invariant
            i <= prefix@.len(),
            r@ == prefix@.take(i as int),
        decreases prefix@.len() - i,
    {
        r.push(prefix[i]);
        proof {
            assert(r@ =~= prefix@.take(i + 1));
        }
        i = i + 1;
    }
    proof {
        assert(r@ =~= prefix@);
    }
    r.push(45);
    let mut t = padded_dec(timestep, 5);
    r.append(&mut t);
    r.push(46);
    let mut s = padded_dec(shard, 4);
    r.append(&mut s);
    r.push(46);
    r.push(100);
    r.push(97);
    r.push(116);
    proof {
        assert(r@ =~= spec_shard_file_name(prefix@, timestep as nat, shard as nat));
    }
    r
}

} // verus!
