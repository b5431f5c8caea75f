use vstd::prelude::*;
use vstd::string::StringSliceAdditionalSpecFns;
use vstd::utf8::encode_utf8;
use crate::types::ProverType;

verus! {

broadcast use vstd::utf8::group_utf8_lib;

/// The comma byte that separates the two directory segments of the
/// asset-switch signal.
pub const SIGNAL_SEPARATOR: u8 = 44;

/// One circuit generation's asset descriptor: the name of the hard fork it
/// belongs to and where its parameters and assets live on disk.
#[derive(Debug)]
pub struct CircuitConfig {
    pub hard_fork_name: String,
    pub params_path: String,
    pub assets_path: String,
}

/// Connection parameters for the remote coordinator.
#[derive(Debug)]
pub struct CoordinatorConfig {
    pub base_url: String,
    pub retry_count: u32,
    pub retry_wait_time_sec: u64,
    pub connection_timeout_sec: u64,
}

/// Endpoint of the optional upstream execution node; absent in some
/// deployment modes.
#[derive(Debug)]
pub struct L2GethConfig {
    pub endpoint: String,
}

/// The whole process configuration: worker identity, key material locations,
/// the two circuit generations, and coordinator connection parameters.
#[derive(Debug)]
pub struct Config {
    pub prover_name: String,
    pub keystore_path: String,
    pub keystore_password: String,
    pub db_path: String,
    pub prover_type: ProverType,
    pub low_version_circuit: CircuitConfig,
    pub high_version_circuit: CircuitConfig,
    pub coordinator: CoordinatorConfig,
    pub l2geth: Option<L2GethConfig>,
}

impl CircuitConfig {
    /// Both on-disk locations of this circuit generation are named.
    pub open spec fn wf(&self) -> bool {
        self.params_path@.len() > 0 && self.assets_path@.len() > 0
    }
}

impl Config {
    /// The dual-version switch is configured: both circuit generations carry
    /// non-empty parameter and asset paths.
    pub open spec fn circuits_wf(&self) -> bool {
        self.low_version_circuit.wf() && self.high_version_circuit.wf()
    }

    /// Checks that both circuit descriptors name their parameter and asset
    /// directories, the structural validity the dual-version switch needs.
    pub fn has_valid_circuit_paths(&self) -> (b: bool)
        ensures
            b == self.circuits_wf(),
    {
        !self.low_version_circuit.params_path.as_str().is_empty()
            && !self.low_version_circuit.assets_path.as_str().is_empty()
            && !self.high_version_circuit.params_path.as_str().is_empty()
            && !self.high_version_circuit.assets_path.as_str().is_empty()
    }
}

/// How often the separator byte occurs in a signal value.
pub open spec fn comma_count(b: Seq<u8>) -> nat
    decreases b.len(),
{
    if b.len() == 0 {
        0
    } else {
        (if b[0] == SIGNAL_SEPARATOR {
            1nat
        } else {
            0nat
        }) + comma_count(b.subrange(1, b.len() as int))
    }
}

/// The index of the first separator byte; meaningful only when one occurs.
pub open spec fn first_comma(b: Seq<u8>) -> int
    decreases b.len(),
{
    if b.len() == 0 {
        0
    } else if b[0] == SIGNAL_SEPARATOR {
        0
    } else {
        1 + first_comma(b.subrange(1, b.len() as int))
    }
}

/// A signal value is well formed when it consists of exactly two segments,
/// that is, exactly one separator occurs. (The separator is an ASCII byte, so
/// counting it over the UTF-8 bytes of the signal counts exactly its
/// occurrences as a character.)
pub open spec fn is_valid_signal(b: Seq<u8>) -> bool {
    comma_count(b) == 1
}

/// The first segment of a well-formed signal: the low-version directory.
pub open spec fn low_of(b: Seq<u8>) -> Seq<u8> {
    b.subrange(0, first_comma(b))
}

/// The second segment of a well-formed signal: the high-version directory.
pub open spec fn high_of(b: Seq<u8>) -> Seq<u8> {
    b.subrange(first_comma(b) + 1, b.len() as int)
}

proof fn lemma_comma_count_push(b: Seq<u8>, x: u8)
    ensures
        comma_count(b.push(x)) == comma_count(b) + (if x == SIGNAL_SEPARATOR {
            1nat
        } else {
            0nat
        }),
    decreases b.len(),
{
    assert(b.push(x)[0] == if b.len() == 0 {
        x
    } else {
        b[0]
    });
    if b.len() == 0 {
        assert(b.push(x).subrange(1, b.push(x).len() as int) =~= Seq::<u8>::empty());
        assert(comma_count(Seq::<u8>::empty()) == 0);
    } else {
        assert(b.push(x).subrange(1, b.push(x).len() as int) =~= b.subrange(
            1,
            b.len() as int,
        ).push(x));
        lemma_comma_count_push(b.subrange(1, b.len() as int), x);
    }
}

proof fn lemma_comma_count_concat(a: Seq<u8>, c: Seq<u8>)
    ensures
        comma_count(a + c) == comma_count(a) + comma_count(c),
    decreases a.len(),
{
    if a.len() == 0 {
        assert(a + c =~= c);
    } else {
        assert((a + c).subrange(1, (a + c).len() as int) =~= a.subrange(1, a.len() as int) + c);
        lemma_comma_count_concat(a.subrange(1, a.len() as int), c);
    }
}

proof fn lemma_comma_count_zero(b: Seq<u8>)
    ensures
        comma_count(b) == 0 <==> (forall|j: int| 0 <= j < b.len() ==> b[j] != SIGNAL_SEPARATOR),
    decreases b.len(),
{
    if b.len() > 0 {
        lemma_comma_count_zero(b.subrange(1, b.len() as int));
        if comma_count(b) == 0 {
            assert forall|j: int| 0 <= j < b.len() implies b[j] != SIGNAL_SEPARATOR by {
                if j > 0 {
                    assert(b.subrange(1, b.len() as int)[j - 1] == b[j]);
                }
            }
        } else {
            if b[0] != SIGNAL_SEPARATOR {
                let j = choose|j: int|
                    0 <= j < b.subrange(1, b.len() as int).len() && b.subrange(
                        1,
                        b.len() as int,
                    )[j] == SIGNAL_SEPARATOR;
                assert(b[j + 1] == SIGNAL_SEPARATOR);
            }
        }
    }
}

proof fn lemma_first_comma_exists(b: Seq<u8>)
    requires
        comma_count(b) > 0,
    ensures
        0 <= first_comma(b) < b.len(),
        b[first_comma(b)] == SIGNAL_SEPARATOR,
        forall|j: int| 0 <= j < first_comma(b) ==> b[j] != SIGNAL_SEPARATOR,
    decreases b.len(),
{
    if b[0] != SIGNAL_SEPARATOR {
        let tail = b.subrange(1, b.len() as int);
        lemma_first_comma_exists(tail);
        assert forall|j: int| 0 <= j < first_comma(b) implies b[j] != SIGNAL_SEPARATOR by {
            if j > 0 {
                assert(tail[j - 1] == b[j]);
            }
        }
    }
}

proof fn lemma_first_comma_at(b: Seq<u8>, p: int)
    requires
        0 <= p < b.len(),
        b[p] == SIGNAL_SEPARATOR,
        forall|j: int| 0 <= j < p ==> b[j] != SIGNAL_SEPARATOR,
    ensures
        first_comma(b) == p,
    decreases p,
{
    if p > 0 {
        let tail = b.subrange(1, b.len() as int);
        assert(tail[p - 1] == SIGNAL_SEPARATOR);
        assert forall|j: int| 0 <= j < p - 1 implies tail[j] != SIGNAL_SEPARATOR by {
            assert(tail[j] == b[j + 1]);
        }
        lemma_first_comma_at(tail, p - 1);
    }
}

/// A well-formed signal is exactly its low segment, one separator, and its
/// high segment, and neither segment contains a separator: the two stored
/// directories reconstruct the signal, and each is a whole segment.
pub proof fn lemma_signal_decomposition(b: Seq<u8>)
    requires
        is_valid_signal(b),
    ensures
        0 <= first_comma(b) < b.len(),
        b =~= low_of(b) + seq![SIGNAL_SEPARATOR] + high_of(b),
        comma_count(low_of(b)) == 0,
        comma_count(high_of(b)) == 0,
        forall|j: int| 0 <= j < low_of(b).len() ==> low_of(b)[j] != SIGNAL_SEPARATOR,
        forall|j: int| 0 <= j < high_of(b).len() ==> high_of(b)[j] != SIGNAL_SEPARATOR,
{
    lemma_first_comma_exists(b);
    let p = first_comma(b);
    assert(b =~= low_of(b) + seq![SIGNAL_SEPARATOR] + high_of(b));
    lemma_comma_count_concat(low_of(b) + seq![SIGNAL_SEPARATOR], high_of(b));
    lemma_comma_count_concat(low_of(b), seq![SIGNAL_SEPARATOR]);
    assert(comma_count(seq![SIGNAL_SEPARATOR]) == 1) by {
        assert(seq![SIGNAL_SEPARATOR].subrange(1, 1) =~= Seq::<u8>::empty());
    }
    lemma_comma_count_zero(low_of(b));
    lemma_comma_count_zero(high_of(b));
}

/// The error of initializing the dual-version switch.
#[derive(Debug, PartialEq, Eq, Structural, Clone, Copy)]
pub enum InitError {
    /// The signal did not consist of exactly two comma-separated segments.
    MalformedSignal,
}

/// The abstract state of the switch after `init` sees a signal with the
/// given bytes: a valid signal initializes an uninitialized switch, a second
/// initialization keeps the first values, and a malformed signal changes
/// nothing.
pub open spec fn init_result(st: Option<(Seq<u8>, Seq<u8>)>, b: Seq<u8>) -> Option<
    (Seq<u8>, Seq<u8>),
> {
    if is_valid_signal(b) && st is None {
        Some((low_of(b), high_of(b)))
    } else {
        st
    }
}

/// The directory that selecting the low version publishes from the given
/// switch state.
pub open spec fn selected_low(st: Option<(Seq<u8>, Seq<u8>)>) -> Seq<u8> {
    match st {
        Some(d) => d.0,
        None => Seq::empty(),
    }
}

/// The directory that selecting the high version publishes from the given
/// switch state.
pub open spec fn selected_high(st: Option<(Seq<u8>, Seq<u8>)>) -> Seq<u8> {
    match st {
        Some(d) => d.1,
        None => Seq::empty(),
    }
}

/// From any valid signal, initializing a fresh switch and then selecting a
/// version publishes exactly that version's segment of the signal, however
/// often and in whatever order the selections are made (selection does not
/// change the switch state).
pub proof fn lemma_init_then_select(b: Seq<u8>)
    requires
        is_valid_signal(b),
    ensures
        init_result(None, b) == Some((low_of(b), high_of(b))),
        selected_low(init_result(None, b)) == low_of(b),
        selected_high(init_result(None, b)) == high_of(b),
{
}

/// A second initialization, with whatever signal, keeps the values stored by
/// the first successful one.
pub proof fn lemma_init_first_wins(b1: Seq<u8>, b2: Seq<u8>)
    requires
        is_valid_signal(b1),
    ensures
        init_result(init_result(None, b1), b2) == init_result(None, b1),
{
}

/// A malformed signal is rejected and leaves the switch state as it was.
pub proof fn lemma_init_malformed_keeps_state(st: Option<(Seq<u8>, Seq<u8>)>, b: Seq<u8>)
    requires
        !is_valid_signal(b),
    ensures
        init_result(st, b) == st,
{
}

/// The shared channel through which the proving pipeline learns the active
/// asset directory: a single replaceable slot, last writer wins.
pub struct AssetsSignal {
    value: String,
}

impl View for AssetsSignal {
    type V = Seq<u8>;

    closed spec fn view(&self) -> Seq<u8> {
        encode_utf8(self.value@)
    }
}

impl AssetsSignal {
    /// A fresh channel holding the empty value.
    pub fn new() -> (s: Self)
        ensures
            s@ == Seq::<u8>::empty(),
    {
        let s = AssetsSignal { value: String::new() };
        proof {
            assert(encode_utf8(Seq::<char>::empty()) =~= Seq::<u8>::empty());
        }
        s
    }

    /// The currently published directory, as last written.
    pub fn read(&self) -> (r: &str)
        ensures
            r.spec_bytes() == self@,
    {
        self.value.as_str()
    }
}

/// The dual-version switch: holds the two asset directories once a valid
/// signal has initialized it, and publishes one of them into the shared
/// channel on selection.
pub struct AssetsDirEnvConfig {
    dirs: Option<(String, String)>,
}

impl View for AssetsDirEnvConfig {
    type V = Option<(Seq<u8>, Seq<u8>)>;

    closed spec fn view(&self) -> Option<(Seq<u8>, Seq<u8>)> {
        match self.dirs {
            Some((ref l, ref h)) => Some((encode_utf8(l@), encode_utf8(h@))),
            None => None,
        }
    }
}

impl AssetsDirEnvConfig {
    /// A switch with no directories registered yet.
    pub fn new() -> (c: Self)
        ensures
            c@ is None,
    {
        AssetsDirEnvConfig { dirs: None }
    }

    /// Whether a successful initialization has registered the two
    /// directories.
    pub fn is_initialized(&self) -> (b: bool)
        ensures
            b == (self@ is Some),
    {
        self.dirs.is_some()
    }

    /// Registers the two asset directories from the two-part signal value.
    /// Exactly one separator must occur; otherwise the signal is malformed,
    /// nothing changes, and the error is returned. A successful second call
    /// keeps the values of the first (first writer wins).
    pub fn init(&mut self, signal_value: &str) -> (r: Result<(), InitError>)
        ensures
            r is Ok <==> is_valid_signal(signal_value.spec_bytes()),
            !is_valid_signal(signal_value.spec_bytes()) ==> r == Err::<(), InitError>(
                InitError::MalformedSignal,
            ),
            final(self)@ == init_result(old(self)@, signal_value.spec_bytes()),
    {
        let bytes: &[u8] = signal_value.as_bytes();
        let n: usize = bytes.len();
        let mut i: usize = 0;
        let mut count: usize = 0;
        let mut pos: usize = 0;
        while i < n
            invariant
                bytes@ == signal_value.spec_bytes(),
                n == bytes@.len(),
                0 <= i <= n,
                count == comma_count(bytes@.subrange(0, i as int)),
                count <= i,
                count > 0 ==> 0 <= pos < i && bytes@[pos as int] == SIGNAL_SEPARATOR && (forall|
                    j: int,
                |
                    0 <= j < pos ==> bytes@[j] != SIGNAL_SEPARATOR),
            decreases n - i,
        {
            proof {
                assert(bytes@.subrange(0, (i + 1) as int) =~= bytes@.subrange(0, i as int).push(
                    bytes@[i as int],
                ));
                lemma_comma_count_push(bytes@.subrange(0, i as int), bytes@[i as int]);
            }
            if bytes[i] == SIGNAL_SEPARATOR {
                if count == 0 {
                    proof {
                        lemma_comma_count_zero(bytes@.subrange(0, i as int));
                        assert forall|j: int| 0 <= j < i implies bytes@[j] != SIGNAL_SEPARATOR by {
                            assert(bytes@.subrange(0, i as int)[j] == bytes@[j]);
                        }
                    }
                    pos = i;
                }
                count = count + 1;
            }
            i = i + 1;
        }
        proof {
            assert(bytes@.subrange(0, n as int) =~= bytes@);
        }
        if count != 1 {
            return Err(InitError::MalformedSignal);
        }
        proof {
            lemma_first_comma_at(bytes@, pos as int);
        }
        if self.dirs.is_some() {
            return Ok(());
        }
        let ghost sb = signal_value.spec_bytes();
        proof {
            assert(!vstd::utf8::is_continuation_byte(sb[pos as int]));
        }
        let (lo_part, rest) = signal_value.split_at(pos);
        proof {
            assert(rest.spec_bytes() =~= sb.subrange(pos as int, n as int));
            assert(rest.spec_bytes()[0] == SIGNAL_SEPARATOR);
            assert(rest.spec_bytes().len() >= 1);
            lemma_boundary_after_ascii(rest.spec_bytes());
        }
        let (_, hi_part) = rest.split_at(1);
        proof {
            assert(hi_part.spec_bytes() =~= high_of(sb));
            assert(lo_part.spec_bytes() =~= low_of(sb));
        }
        self.dirs = Some((lo_part.to_owned(), hi_part.to_owned()));
        Ok(())
    }

    /// Publishes the low-version directory into the shared channel.
    /// May be called only after a successful initialization.
    pub fn enable_first(&self, signal: &mut AssetsSignal)
        requires
            self@ is Some,
        ensures
            final(signal)@ == selected_low(self@),
    {
        match &self.dirs {
            Some(d) => {
                signal.value = d.0.clone();
            },
            None => {
                proof {
                    assert(false);
                }
            },
        }
    }

    /// Publishes the high-version directory into the shared channel.
    /// May be called only after a successful initialization.
    pub fn enable_second(&self, signal: &mut AssetsSignal)
        requires
            self@ is Some,
        ensures
            final(signal)@ == selected_high(self@),
    {
        match &self.dirs {
            Some(d) => {
                signal.value = d.1.clone();
            },
            None => {
                proof {
                    assert(false);
                }
            },
        }
    }
}

/// In a valid UTF-8 sequence whose first byte is ASCII, the position right
/// after that byte is a character boundary.
proof fn lemma_boundary_after_ascii(b: Seq<u8>)
    requires
        vstd::utf8::valid_utf8(b),
        b.len() >= 1,
        b[0] < 128,
    ensures
        vstd::utf8::is_char_boundary(b, 1),
{
    reveal_with_fuel(vstd::utf8::valid_utf8, 2);
    reveal_with_fuel(vstd::utf8::is_char_boundary, 3);
    assert(vstd::utf8::length_of_first_scalar(b) == 1);
}

} // verus!
