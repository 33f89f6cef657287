//! Batch validation and video-file naming rules: name length and
//! uniqueness, frame-size constraints, the plugin template's ten-video
//! capacity, and the frame-rate suffix embedded in a video file stem.
use vstd::prelude::*;
use vstd::arithmetic::power2::{pow2, lemma_pow2_strictly_increases};

verus! {

/// How warnings raised by a batch are resolved: accepted wholesale,
/// refused, or put to the user interactively.
pub enum Mode {
    YES,
    NO,
    UiMode,
}

/// Names an external editor needs to append video records to an existing
/// plugin file; handed through to the script generator.
pub struct ScriptInfo {
    pub esp_name: String,
    pub tv_record: String,
    pub pr_record: String,
    pub di_esp_name: String,
}

/// A batch input the pipeline refuses to process.
#[derive(Clone, Copy, PartialEq, Eq, Structural, Debug)]
pub enum ValidationError {
    /// A video or mod name is longer than the ten bytes a token can hold.
    NameTooLong,
    /// Two videos of one batch carry the same name.
    DuplicateName,
    /// The frame size is not a power of two.
    FrameSizeNotPowerOfTwo,
    /// The frame size is a power of two but exceeds 1024.
    FrameSizeTooLarge,
    /// More videos than a plugin file holds, and no confirmation given.
    TooManyVideos,
}

/// How a batch larger than the plugin template's capacity is handled.
#[derive(Clone, Copy, PartialEq, Eq, Structural, Debug)]
pub enum CapacityRuling {
    Proceed,
    NeedsConfirmation,
    Refuse,
}

/// A plugin template holds records for at most this many videos.
pub const PLUGIN_CAPACITY: usize = 10;

/// An identifier must fit a token of this many bytes.
pub const MAX_NAME_LEN: usize = 10;

/// The ruling on a batch of `count` videos: script generation bypasses the
/// plugin file and its capacity entirely; a batch within capacity proceeds;
/// over capacity, the interactive front end refuses, a yes-to-all run
/// proceeds, and otherwise the user is asked.
pub open spec fn capacity_ruling_spec(count: int, generate_script: bool, mode: Mode) -> CapacityRuling {
    if generate_script || count <= PLUGIN_CAPACITY {
        CapacityRuling::Proceed
    } else if mode is UiMode {
        CapacityRuling::Refuse
    } else if mode is YES {
        CapacityRuling::Proceed
    } else {
        CapacityRuling::NeedsConfirmation
    }
}

/// Decides how a batch of `count` videos stands to the plugin capacity.
pub fn check_video_capacity(count: usize, generate_script: bool, mode: &Mode) -> (r: CapacityRuling)
    ensures
        r == capacity_ruling_spec(count as int, generate_script, *mode),
{
    if generate_script || count <= PLUGIN_CAPACITY {
        CapacityRuling::Proceed
    } else {
        match mode {
            Mode::UiMode => CapacityRuling::Refuse,
            Mode::YES => CapacityRuling::Proceed,
            Mode::NO => CapacityRuling::NeedsConfirmation,
        }
    }
}

/// Turns a capacity ruling and the answer to any confirmation prompt into
/// the decision to go on: a refusal, or an unconfirmed prompt, is the
/// too-many-videos error.
pub fn resolve_capacity(ruling: CapacityRuling, confirmed: bool) -> (r: Result<(), ValidationError>)
    ensures
        r is Ok <==> (ruling is Proceed || (ruling is NeedsConfirmation && confirmed)),
        r is Err ==> r == Result::<(), ValidationError>::Err(ValidationError::TooManyVideos),
{
    match ruling {
        CapacityRuling::Proceed => Ok(()),
        CapacityRuling::NeedsConfirmation => if confirmed {
            Ok(())
        } else {
            Err(ValidationError::TooManyVideos)
        },
        CapacityRuling::Refuse => Err(ValidationError::TooManyVideos),
    }
}

/// The first naming fault at or after index `i`, walking the batch in
/// order: at each index an overlong name is reported before a name already
/// seen at an earlier index.
pub open spec fn names_error_spec(names: Seq<Seq<u8>>, i: int) -> Option<ValidationError>
    decreases names.len() - i,
    when 0 <= i
{
    if i >= names.len() {
        None
    } else if names[i].len() > MAX_NAME_LEN {
        Some(ValidationError::NameTooLong)
    } else if exists|j: int| 0 <= j < i && names[j] == names[i] {
        Some(ValidationError::DuplicateName)
    } else {
        names_error_spec(names, i + 1)
    }
}

/// Compares two byte strings.
#[verifier::loop_isolation(false)]
pub fn bytes_equal(a: &Vec<u8>, b: &Vec<u8>) -> (r: bool)
    ensures
        r == (a@ == b@),
{
    if a.len() != b.len() {
        return false;
    }
    let mut i: usize = 0;
    while i < a.len()
        invariant
            i <= a@.len(),
            a@.len() == b@.len(),
            forall|k: int| 0 <= k < i ==> a@[k] == b@[k],
        decreases a@.len() - i,
    {
        if a[i] != b[i] {
            return false;
        }
        i = i + 1;
    }
    proof {
        assert(a@ =~= b@);
    }
    true
}

/// Checks every video name of a batch: at most ten bytes each, and no name
/// used twice. The first fault in batch order is reported.
#[verifier::loop_isolation(false)]
pub fn validate_names(names: &Vec<Vec<u8>>) -> (result: Result<(), ValidationError>)
    ensures
        result is Ok <==> names_error_spec(names@.map_values(|n: Vec<u8>| n@), 0) is None,
        result matches Err(e) ==> names_error_spec(names@.map_values(|n: Vec<u8>| n@), 0)
            == Some(e),
{
    let ghost ns = names@.map_values(|n: Vec<u8>| n@);
    let mut i: usize = 0;
    while i < names.len()
        invariant
            i <= names@.len(),
            ns == names@.map_values(|n: Vec<u8>| n@),
            names_error_spec(ns, 0) == names_error_spec(ns, i as int),
        decreases names@.len() - i,
    {
        if names[i].len() > MAX_NAME_LEN {
            return Err(ValidationError::NameTooLong);
        }
        let mut j: usize = 0;
        while j < i
            invariant
                j <= i < names@.len(),
                ns == names@.map_values(|n: Vec<u8>| n@),
                forall|k: int| 0 <= k < j ==> ns[k] != ns[i as int],
            decreases i - j,
        {
            if bytes_equal(&names[j], &names[i]) {
                proof {
                    assert(ns[j as int] == ns[i as int]);
                }
                return Err(ValidationError::DuplicateName);
            }
            j = j + 1;
        }
        proof {
            assert(!(exists|k: int| 0 <= k < i && ns[k] == ns[i as int]));
        }
        i = i + 1;
    }
    Ok(())
}

/// `n` is a power of two.
pub open spec fn is_power_of_two(n: int) -> bool {
    exists|e: nat| n == pow2(e)
}

/// Decides whether `n` is a power of two, by running up the powers.
#[verifier::loop_isolation(false)]
pub fn check_power_of_two(n: u32) -> (r: bool)
    ensures
        r == is_power_of_two(n as int),
{
    let mut p: u64 = 1;
    let ghost e: nat = 0nat;
    proof {
        vstd::arithmetic::power2::lemma2_to64();
    }
    while p < n as u64
        invariant
            1 <= p,
            p == pow2(e),
            p <= 0x1_0000_0000u64,
            forall|d: nat| d < e ==> pow2(d) < n,
        decreases 2 * (n as int) - (p as int),
    {
        proof {
            assert(pow2((e + 1) as nat) == 2 * pow2(e)) by {
                vstd::arithmetic::power2::lemma_pow2_unfold((e + 1) as nat);
            }
            assert forall|d: nat| d < e + 1 implies pow2(d) < n by {
                if d < e {
                } else {
                    assert(pow2(d) == p);
                }
            }
        }
        p = 2 * p;
        proof {
            e = e + 1;
        }
    }
    if p == n as u64 {
        proof {
            assert(n == pow2(e));
        }
        true
    } else {
        proof {
            if is_power_of_two(n as int) {
                let w = choose|w: nat| n as int == pow2(w);
                if w < e {
                    assert(pow2(w) < n);
                } else if w > e {
                    lemma_pow2_strictly_increases(e, w);
                }
                assert(false);
            }
        }
        false
    }
}

/// Checks the output frame size: it must be a power of two — zero is not —
/// and must not exceed 1024. The power-of-two fault is reported first.
pub fn validate_frame_size(size: u32) -> (result: Result<(), ValidationError>)
    ensures
        result is Ok <==> is_power_of_two(size as int) && size <= 1024,
        result == Result::<(), ValidationError>::Err(ValidationError::FrameSizeNotPowerOfTwo)
            <==> !is_power_of_two(size as int),
        result == Result::<(), ValidationError>::Err(ValidationError::FrameSizeTooLarge)
            <==> is_power_of_two(size as int) && size > 1024,
{
    if !check_power_of_two(size) {
        Err(ValidationError::FrameSizeNotPowerOfTwo)
    } else if size > 1024 {
        Err(ValidationError::FrameSizeTooLarge)
    } else {
        Ok(())
    }
}

/// An ASCII decimal digit.
pub open spec fn is_digit(b: u8) -> bool {
    48 <= b <= 57
}

/// Every byte is an ASCII decimal digit.
pub open spec fn all_digits(s: Seq<u8>) -> bool {
    forall|i: int| 0 <= i < s.len() ==> is_digit(s[i])
}

/// The number the decimal digits of `s` spell.
pub open spec fn digits_value(s: Seq<u8>) -> nat
    decreases s.len(),
{
    if s.len() == 0 {
        0
    } else {
        (digits_value(s.drop_last()) * 10 + (s.last() - 48)) as nat
    }
}

/// The byte forms a 32-bit unsigned decimal read accepts: an optional
/// leading plus sign, then at least one digit, spelling a value that fits.
pub open spec fn parseable_u32(s: Seq<u8>) -> bool {
    let ds = if s.len() > 0 && s[0] == 43 { s.skip(1) } else { s };
    ds.len() > 0 && all_digits(ds) && digits_value(ds) <= u32::MAX
}

/// The value such a read yields.
pub open spec fn parsed_u32(s: Seq<u8>) -> nat {
    let ds = if s.len() > 0 && s[0] == 43 { s.skip(1) } else { s };
    digits_value(ds)
}

/// A digit string is worth at least any of its prefixes.
proof fn lemma_digits_monotone(s: Seq<u8>, j: int)
    requires
        all_digits(s),
        0 <= j <= s.len(),
    ensures
        digits_value(s) >= digits_value(s.take(j)),
    decreases s.len(),
{
    if j == s.len() {
        assert(s.take(j) =~= s);
    } else {
        assert(is_digit(s.last()));
        assert(digits_value(s) >= digits_value(s.drop_last()));
        assert(all_digits(s.drop_last()));
        assert(s.take(j) =~= s.drop_last().take(j));
        lemma_digits_monotone(s.drop_last(), j);
    }
}

/// Reads a 32-bit unsigned decimal: an optional leading plus sign, then at
/// least one digit; anything else, or a value that does not fit, is refused.
#[verifier::loop_isolation(false)]
pub fn parse_u32(s: &[u8]) -> (r: Option<u32>)
    ensures
        r is Some <==> parseable_u32(s@),
        r matches Some(v) ==> v == parsed_u32(s@),
{
    let start: usize = if s.len() > 0 && s[0] == 43 {
        1
    } else {
        0
    };
    let ghost ds = if s@.len() > 0 && s@[0] == 43 { s@.skip(1) } else { s@ };
    if s.len() == start {
        return None;
    }
    let mut value: u32 = 0;
    let mut i: usize = start;
    while i < s.len()
        invariant
            start <= i <= s@.len(),
            ds == s@.skip(start as int),
            value == digits_value(s@.subrange(start as int, i as int)),
            all_digits(s@.subrange(start as int, i as int)),
        decreases s@.len() - i,
    {
        let b = s[i];
        let ghost pre = s@.subrange(start as int, i as int);
        let ghost ext = s@.subrange(start as int, i as int + 1);
        proof {
            assert(ext.drop_last() =~= pre);
            assert(ext.last() == s@[i as int]);
            assert(ext =~= ds.take(i - start + 1));
        }
        if b < 48 || b > 57 {
            proof {
                assert(ds[i - start] == s@[i as int]);
                assert(!all_digits(ds));
            }
            return None;
        }
        let d = (b - 48) as u32;
        if value > (u32::MAX - d) / 10 {
            proof {
                let q = (u32::MAX - d) as int / 10;
                assert(value * 10 + d > u32::MAX) by (nonlinear_arith)
                    requires
                        q == (u32::MAX - d) as int / 10,
                        value > q,
                        0 <= d <= 9,
                ;
                assert(digits_value(ext) == value * 10 + d);
                if parseable_u32(s@) {
                    lemma_digits_monotone(ds, i - start + 1);
                    assert(false);
                }
            }
            return None;
        }
        value = value * 10 + d;
        i = i + 1;
    }
    proof {
        assert(s@.subrange(start as int, i as int) =~= ds);
        assert(ds.len() > 0);
    }
    Some(value)
}

/// The index of the last dot of `s`, or `-1` when it has none.
pub open spec fn find_last_dot(s: Seq<u8>) -> int
    decreases s.len(),
{
    if s.len() == 0 {
        -1
    } else if s.last() == 46 {
        s.len() - 1
    } else {
        find_last_dot(s.drop_last())
    }
}

/// Finds the last dot of `s`.
#[verifier::loop_isolation(false)]
pub fn last_dot_index(s: &[u8]) -> (r: Option<usize>)
    ensures
        r matches Some(d) ==> d == find_last_dot(s@) && d < s@.len(),
        r is None ==> find_last_dot(s@) == -1,
{
    let mut i: usize = s.len();
    proof {
        assert(s@.take(i as int) =~= s@);
    }
    while i > 0
        invariant
            i <= s@.len(),
            find_last_dot(s@) == find_last_dot(s@.take(i as int)),
        decreases i,
    {
        let j = i - 1;
        if s[j] == 46 {
            proof {
                assert(s@.take(i as int).last() == s@[j as int]);
            }
            return Some(j);
        }
        proof {
            assert(s@.take(i as int).last() == s@[j as int]);
            assert(s@.take(i as int).drop_last() =~= s@.take(j as int));
        }
        i = j;
    }
    None
}

/// Every dot replaced by an underscore.
pub open spec fn dots_to_underscores(s: Seq<u8>) -> Seq<u8> {
    s.map(|_i: int, b: u8| if b == 46 { 95u8 } else { b })
}

/// Every space replaced by an underscore.
pub open spec fn spaces_to_underscores(s: Seq<u8>) -> Seq<u8> {
    s.map(|_i: int, b: u8| if b == 32 { 95u8 } else { b })
}

/// The name drawn from a video file stem: a final dot-separated field that
/// reads as a number is the per-video frame rate and is dropped, and the
/// remaining dots become underscores; a long name is cut to ten bytes when
/// `short_names` is set; spaces always become underscores.
pub open spec fn stem_name_spec(stem: Seq<u8>, short_names: bool) -> Seq<u8> {
    let d = find_last_dot(stem);
    let name = if d >= 0 && parseable_u32(stem.skip(d + 1)) {
        dots_to_underscores(stem.take(d))
    } else {
        stem
    };
    let cut = if short_names && name.len() > MAX_NAME_LEN {
        name.take(MAX_NAME_LEN as int)
    } else {
        name
    };
    spaces_to_underscores(cut)
}

/// The frame rate drawn from a video file stem, or the batch default when
/// the stem embeds none.
pub open spec fn stem_frame_rate_spec(stem: Seq<u8>, default_rate: u32) -> u32 {
    let d = find_last_dot(stem);
    if d >= 0 && parseable_u32(stem.skip(d + 1)) {
        parsed_u32(stem.skip(d + 1)) as u32
    } else {
        default_rate
    }
}

/// Draws the video name and frame rate from a video file stem.
#[verifier::loop_isolation(false)]
pub fn parse_video_stem(stem: &[u8], default_rate: u32, short_names: bool) -> (r: (Vec<u8>, u32))
    ensures
        r.0@ == stem_name_spec(stem@, short_names),
        r.1 == stem_frame_rate_spec(stem@, default_rate),
{
    let mut rate = default_rate;
    let mut end = stem.len();
    let mut map_dots = false;
    if let Some(d) = last_dot_index(stem) {
        let suffix = vstd::slice::slice_subrange(stem, d + 1, stem.len());
        proof {
            assert(suffix@ =~= stem@.skip(d + 1));
        }
        if let Some(v) = parse_u32(suffix) {
            rate = v;
            end = d;
            map_dots = true;
        }
    }
    let cut = if short_names && end > MAX_NAME_LEN {
        MAX_NAME_LEN
    } else {
        end
    };
    let mut name: Vec<u8> = Vec::new();
    let mut i: usize = 0;
    while i < cut
        invariant
            i <= cut,
            name@.len() == i,
            forall|k: int|
                0 <= k < i ==> name@[k] == ({
                    let b = stem@[k];
                    let b1 = if map_dots && b == 46 { 95u8 } else { b };
                    if b1 == 32 { 95u8 } else { b1 }
                }),
        decreases cut - i,
    {
        let b = stem[i];
        let b1 = if map_dots && b == 46 {
            95
        } else {
            b
        };
        let b2 = if b1 == 32 {
            95
        } else {
            b1
        };
        name.push(b2);
        i = i + 1;
    }
    proof {
        assert(name@ =~= stem_name_spec(stem@, short_names));
    }
    (name, rate)
}

/// The whole batch validation in front-end order: the plugin capacity
/// ruling first — `confirmed` is the answer to any confirmation prompt —
/// then every name, then the frame size.
pub open spec fn batch_validation_spec(
    names: Seq<Seq<u8>>,
    size: u32,
    generate_script: bool,
    mode: Mode,
    confirmed: bool,
) -> Result<(), ValidationError> {
    let ruling = capacity_ruling_spec(names.len() as int, generate_script, mode);
    if !(ruling is Proceed || (ruling is NeedsConfirmation && confirmed)) {
        Err(ValidationError::TooManyVideos)
    } else if names_error_spec(names, 0) is Some {
        Err(names_error_spec(names, 0)->Some_0)
    } else if !is_power_of_two(size as int) {
        Err(ValidationError::FrameSizeNotPowerOfTwo)
    } else if size > 1024 {
        Err(ValidationError::FrameSizeTooLarge)
    } else {
        Ok(())
    }
}

/// Runs the whole batch validation: capacity against the plugin template,
/// name length and uniqueness, and the frame size, reporting the first
/// fault in that order.
pub fn validate_batch(
    names: &Vec<Vec<u8>>,
    size: u32,
    generate_script: bool,
    mode: &Mode,
    confirmed: bool,
) -> (result: Result<(), ValidationError>)
    ensures
        result == batch_validation_spec(
            names@.map_values(|n: Vec<u8>| n@),
            size,
            generate_script,
            *mode,
            confirmed,
        ),
{
    let ruling = check_video_capacity(names.len(), generate_script, mode);
    match resolve_capacity(ruling, confirmed) {
        Ok(_) => (),
        Err(e) => {
            return Err(e);
        },
    }
    match validate_names(names) {
        Ok(_) => (),
        Err(e) => {
            return Err(e);
        },
    }
    match validate_frame_size(size) {
        Ok(_) => Ok(()),
        Err(e) => Err(e),
    }
}

/// An ASCII upper-case letter folded to lower case; other bytes unchanged.
pub open spec fn ascii_lower(b: u8) -> u8 {
    if 65 <= b <= 90 {
        (b + 32) as u8
    } else {
        b
    }
}

/// The extension reads as `esp`, case-insensitively.
pub open spec fn is_esp_extension_spec(ext: Seq<u8>) -> bool {
    ext.map(|_i: int, b: u8| ascii_lower(b)) == seq![101u8, 115, 112]
}

/// Decides whether a file extension reads as `esp`, case-insensitively:
/// only such a file may stand in for a bundled plugin template.
#[verifier::loop_isolation(false)]
pub fn extension_is_esp(ext: &[u8]) -> (r: bool)
    ensures
        r == is_esp_extension_spec(ext@),
{
    let expected: [u8; 3] = [101, 115, 112];
    if ext.len() != 3 {
        proof {
            assert(ext@.map(|_i: int, b: u8| ascii_lower(b)).len() == ext@.len());
        }
        return false;
    }
    let mut i: usize = 0;
    while i < 3
        invariant
            i <= 3,
            ext@.len() == 3,
            expected@ == seq![101u8, 115, 112],
            forall|k: int| 0 <= k < i ==> ascii_lower(ext@[k]) == expected@[k],
        decreases 3 - i,
    {
        let b = ext[i];
        let low = if 65 <= b && b <= 90 {
            b + 32
        } else {
            b
        };
        if low != expected[i] {
            proof {
                assert(ext@.map(|_i: int, b: u8| ascii_lower(b))[i as int] == ascii_lower(
                    ext@[i as int],
                ));
            }
            return false;
        }
        i = i + 1;
    }
    proof {
        assert(ext@.map(|_i: int, b: u8| ascii_lower(b)) =~= seq![101u8, 115, 112]);
    }
    true
}

/// A batch whose names pass validation holds only names that fit their
/// tokens, no two of them equal.
pub proof fn lemma_names_validated(names: Seq<Seq<u8>>)
    requires
        names_error_spec(names, 0) is None,
    ensures
        forall|i: int| 0 <= i < names.len() ==> names[i].len() <= MAX_NAME_LEN,
        forall|i: int, j: int| 0 <= i < j < names.len() ==> names[i] != names[j],
{
    lemma_names_validated_from(names, 0);
}

/// Induction step for `lemma_names_validated`.
proof fn lemma_names_validated_from(names: Seq<Seq<u8>>, k: int)
    requires
        0 <= k,
        names_error_spec(names, k) is None,
    ensures
        forall|i: int| k <= i < names.len() ==> names[i].len() <= MAX_NAME_LEN,
        forall|i: int, j: int| 0 <= j < i < names.len() && k <= i ==> names[j] != names[i],
    decreases names.len() - k,
{
    if k < names.len() {
        assert(names[k].len() <= MAX_NAME_LEN);
        assert(!(exists|j: int| 0 <= j < k && names[j] == names[k]));
        lemma_names_validated_from(names, k + 1);
    }
}

} // verus!
