//! Interpreter initialization: release metadata constants and the core
//! guest exception classes.

use vstd::prelude::*;
use vstd::string::{StringExecFns, StringSliceAdditionalSpecFns};
use vstd::utf8::encode_utf8;

use crate::class;
use crate::convert::string::string_bytes_at;
use crate::def::NotDefinedError;
use crate::error::Error;
use crate::interp::{Global, Interp};
use crate::value::Value;

verus! {

/// The record separator the guest reports.
pub fn input_record_separator() -> (r: &'static str)
    ensures
        r@ == "\n"@,
{
    "\n"
}

/// Release metadata describing the interpreter to guest code; each entry
/// becomes a frozen global constant.
#[derive(Debug, Clone, Copy)]
pub struct ReleaseMetadata<'a> {
    /// Copyright notice.
    pub ruby_copyright: &'a str,
    /// Human-readable interpreter description.
    pub ruby_description: &'a str,
    /// Engine name.
    pub ruby_engine: &'a str,
    /// Engine version.
    pub ruby_engine_version: &'a str,
    /// Patch level, a decimal number.
    pub ruby_patchlevel: &'a str,
    /// Target platform.
    pub ruby_platform: &'a str,
    /// Release date.
    pub ruby_release_date: &'a str,
    /// Source revision, a decimal number.
    pub ruby_revision: &'a str,
    /// Language version.
    pub ruby_version: &'a str,
    /// Compiler version of this build.
    pub artichoke_compiler_version: &'a str,
}

/// Whether `b` is an ASCII decimal digit.
pub open spec fn is_digit(b: u8) -> bool {
    48 <= b <= 57
}

/// The value of a digit string, most significant digit first.
pub open spec fn digits_value(s: Seq<u8>) -> int
    decreases s.len(),
{
    if s.len() == 0 {
        0
    } else {
        digits_value(s.drop_last()) * 10 + (s.last() - 48)
    }
}

/// Whether a decimal integer's rendering starts with a minus sign.
pub open spec fn parse_negative(s: Seq<u8>) -> bool {
    s.len() > 0 && s[0] == 45
}

/// The digit part of a decimal integer's rendering: everything after the
/// optional sign.
pub open spec fn parse_digits_part(s: Seq<u8>) -> Seq<u8> {
    if s.len() > 0 && (s[0] == 45 || s[0] == 43) {
        s.skip(1)
    } else {
        s
    }
}

/// What parsing a decimal integer yields: an optional sign, then one or
/// more digits, for every value the signed machine word can hold.
pub open spec fn parse_decimal(s: Seq<u8>) -> Option<int> {
    let ds = parse_digits_part(s);
    if ds.len() >= 1 && (forall|j: int| 0 <= j < ds.len() ==> is_digit(#[trigger] ds[j])) {
        let v = if parse_negative(s) {
            -digits_value(ds)
        } else {
            digits_value(ds)
        };
        if i64::MIN <= v <= i64::MAX {
            Some(v)
        } else {
            None
        }
    } else {
        None
    }
}

/// A digit string's value is never negative.
proof fn lemma_digits_value_nonneg(s: Seq<u8>)
    requires
        forall|j: int| 0 <= j < s.len() ==> is_digit(#[trigger] s[j]),
    ensures
        digits_value(s) >= 0,
    decreases s.len(),
{
    if s.len() > 0 {
        lemma_digits_value_nonneg(s.drop_last());
    }
}

/// Extending a digit string never shrinks its value: the prefix's value
/// bounds the whole string's value from below.
proof fn lemma_digits_value_take_mono(s: Seq<u8>, i: int)
    requires
        forall|j: int| 0 <= j < s.len() ==> is_digit(#[trigger] s[j]),
        0 <= i <= s.len(),
    ensures
        digits_value(s.take(i)) <= digits_value(s),
    decreases s.len(),
{
    if i == s.len() {
        assert(s.take(i) =~= s);
    } else {
        let dl = s.drop_last();
        assert(dl.take(i) =~= s.take(i));
        lemma_digits_value_take_mono(dl, i);
        lemma_digits_value_nonneg(dl);
    }
}

/// Parse a decimal integer: an optional sign, then one or more digits,
/// accepting exactly the values the signed machine word can hold.
pub fn parse_int(s: &str) -> (r: Option<i64>)
    ensures
        match parse_decimal(s.spec_bytes()) {
            Some(v) => r == Some(v as i64) && v == r->Some_0 as int,
            None => r is None,
        },
{
    let bytes = s.as_bytes();
    let ghost sb = s.spec_bytes();
    let (neg, start): (bool, usize) = if bytes.len() > 0 && bytes[0] == 45 {
        (true, 1)
    } else if bytes.len() > 0 && bytes[0] == 43 {
        (false, 1)
    } else {
        (false, 0)
    };
    let ghost ds = sb.skip(start as int);
    proof {
        assert(ds =~= (if sb.len() > 0 && (sb[0] == 45 || sb[0] == 43) {
            sb.skip(1)
        } else {
            sb
        }));
    }
    let ndigits = bytes.len() - start;
    if ndigits < 1 {
        return None;
    }
    // Accumulate the magnitude; the invariant keeps it at most one past
    // the signed word's magnitude limit, and a prefix already past the
    // limit with digits still to come proves the value out of range.
    let mut m: u64 = 0;
    let mut j: usize = 0;
    while j < ndigits
        invariant
            0 <= j <= ndigits,
            start <= 1,
            start + ndigits == sb.len(),
            bytes@ == sb,
            sb == s.spec_bytes(),
            ds == sb.skip(start as int),
            ds == parse_digits_part(sb),
            neg == parse_negative(sb),
            ds.len() == ndigits,
            1 <= ndigits,
            forall|k: int| 0 <= k < j ==> is_digit(#[trigger] ds[k]),
            m as int == digits_value(ds.take(j as int)),
            m <= 9223372036854775809u64,
        decreases ndigits - j,
    {
        let b = bytes[start + j];
        if b < 48 || b > 57 {
            proof {
                assert(ds[j as int] == sb[start + j]);
                assert(!is_digit(ds[j as int]));
            }
            return None;
        }
        proof {
            assert(ds[j as int] == sb[start + j]);
            assert(ds.take(j + 1int).drop_last() =~= ds.take(j as int));
            assert(ds.take(j + 1int).last() == ds[j as int]);
        }
        if m >= 922337203685477581u64 {
            proof {
                // One more digit pushes the magnitude past the signed
                // range, whichever digits follow; and if a later byte is
                // no digit at all, the string is not a number either way.
                if forall|k: int| 0 <= k < ds.len() ==> is_digit(#[trigger] ds[k]) {
                    assert(digits_value(ds.take(j + 1int)) == m * 10 + (ds[j as int] - 48));
                    assert(digits_value(ds.take(j + 1int)) >= 9223372036854775810);
                    lemma_digits_value_take_mono(ds, j + 1int);
                    assert(digits_value(ds) >= 9223372036854775810);
                }
            }
            return None;
        }
        m = m * 10 + ((b - 48) as u64);
        j = j + 1;
    }
    proof {
        assert(ds.take(ds.len() as int) =~= ds);
    }
    if neg {
        if m > 9223372036854775808u64 {
            return None;
        }
        if m == 9223372036854775808u64 {
            Some(i64::MIN)
        } else {
            Some(-(m as i64))
        }
    } else {
        if m > 9223372036854775807u64 {
            return None;
        }
        Some(m as i64)
    }
}

/// Whether `g` defines the constant `name` as `v`.
pub open spec fn global_is(g: Global, name: Seq<u8>, v: Value) -> bool {
    g.name@ == name && g.value == v
}

/// Whether heap slot `id` holds a frozen guest string with exactly
/// `bytes`.
pub open spec fn frozen_string_at(
    heap: Seq<crate::interp::HeapSlot>,
    id: int,
    bytes: Seq<u8>,
) -> bool {
    &&& 0 <= id < heap.len()
    &&& heap[id] is String
    &&& heap[id]->String_bytes@ == bytes
    &&& heap[id]->String_frozen
}

impl Interp {
    /// Define `name` as a frozen guest string holding `value`'s UTF-8
    /// bytes: the string is allocated, rooted, frozen, and installed as a
    /// global constant, shadowing any earlier definition of the name.
    pub fn define_frozen_string_constant(&mut self, name: &str, value: &str) -> (r: Result<
        (),
        Error,
    >)
        requires
            old(self).wf(),
        ensures
            final(self).wf(),
            final(self).classes == old(self).classes,
            final(self).symbols == old(self).symbols,
            final(self).boxed == old(self).boxed,
            final(self).anomalies == old(self).anomalies,
            r is Ok <==> !name.spec_bytes().contains(0u8),
            r is Err ==> *final(self) == *old(self),
            r is Ok ==> {
                &&& final(self).heap@.len() == old(self).heap@.len() + 1
                &&& forall|id: int|
                    0 <= id < old(self).heap@.len() ==> final(self).heap@[id] == old(self).heap@[id]
                &&& final(self).globals@.len() == old(self).globals@.len() + 1
                &&& global_is(
                    final(self).globals@[0],
                    name.spec_bytes(),
                    Value::String(old(self).heap.len()),
                )
                &&& forall|k: int|
                    1 <= k < final(self).globals@.len() ==> final(self).globals@[k] == old(
                        self,
                    ).globals@[k - 1]
                &&& string_bytes_at(final(self).heap@, Value::String(old(self).heap.len()))
                    == encode_utf8(value@)
                &&& final(self).heap@.last() matches crate::interp::HeapSlot::String {
                    bytes,
                    frozen,
                } && frozen
                &&& final(self).arena@ == old(self).arena@.push(Value::String(old(self).heap.len()))
            },
    {
        let bytes = name.as_bytes();
        if crate::string::contains_nul(bytes) {
            return Err(Error::ConstantName(crate::def::ConstantNameError(
                String::from_str(name),
            )));
        }
        let v = self.convert_mut_str(value);
        self.freeze(&v);
        let ghost mid = *self;
        let result = self.define_global_constant(name, v);
        proof {
            match result {
                Ok(_) => {},
                Err(_) => {
                    assert(false);
                },
            }
        }
        match result {
            Ok(_) => Ok(()),
            Err(e) => Err(e),
        }
    }

    /// Define a named top-level class, whose name the caller has already
    /// shown to be a valid identifier.
    fn define_core_class(&mut self, name: &str) -> (r: Result<(), Error>)
        requires
            old(self).wf(),
            !name.spec_bytes().contains(0u8),
        ensures
            final(self).wf(),
            final(self).heap == old(self).heap,
            final(self).arena == old(self).arena,
            final(self).globals == old(self).globals,
            final(self).symbols == old(self).symbols,
            final(self).boxed == old(self).boxed,
            final(self).anomalies == old(self).anomalies,
            r is Ok,
            final(self).classes@.len() == old(self).classes@.len() + 1,
            forall|c: int|
                0 <= c < old(self).classes@.len() ==> final(self).classes@[c] == old(
                    self,
                ).classes@[c],
            (final(self).classes@.last().name)@ == name.spec_bytes(),
            final(self).classes@.last().parent is None,
            !final(self).classes@.last().is_module,
    {
        let spec = match class::Spec::new(name, None) {
            Ok(spec) => spec,
            Err(_) => {
                proof {
                    assert(false);
                }
                return Err(Error::ConstantName(crate::def::ConstantNameError::new()));
            },
        };
        match self.define_class(&spec) {
            Ok(_) => Ok(()),
            Err(_) => {
                proof {
                    assert(false);
                }
                Err(Error::ConstantName(crate::def::ConstantNameError::new()))
            },
        }
    }
}

/// Whether the core guest exception classes the bridge surfaces errors
/// through are all defined at top level.
pub open spec fn core_classes_defined(classes: Seq<crate::interp::ClassEntry>) -> bool {
    &&& crate::interp::top_level_class_exists(classes, encode_utf8("NameError"@))
    &&& crate::interp::top_level_class_exists(classes, encode_utf8("ScriptError"@))
    &&& crate::interp::top_level_class_exists(classes, encode_utf8("TypeError"@))
    &&& crate::interp::top_level_class_exists(classes, encode_utf8("ZeroDivisionError"@))
    &&& crate::interp::top_level_class_exists(classes, encode_utf8("RangeError"@))
    &&& crate::interp::top_level_class_exists(classes, encode_utf8("NotImplementedError"@))
}

/// Initialize the interpreter for host-driven use: define the release
/// metadata as frozen global constants, register the core guest
/// exception classes the bridge surfaces errors through, and register
/// the URI library's identities. Fails exactly when the patch level or
/// revision is not a decimal number, naming the constant that could not
/// be defined.
#[verifier::rlimit(80)]
pub fn init(interp: &mut Interp, config: ReleaseMetadata<'_>) -> (r: Result<(), Error>)
    requires
        old(interp).wf(),
        old(interp).symbols@.len() < u32::MAX,
    ensures
        final(interp).wf(),
        r is Ok <==> parse_decimal(config.ruby_patchlevel.spec_bytes()) is Some && parse_decimal(
            config.ruby_revision.spec_bytes(),
        ) is Some,
        parse_decimal(config.ruby_patchlevel.spec_bytes()) is None ==> {
            let h0 = old(interp).heap@.len() as int;
            &&& r matches Err(e)
            &&& e matches Error::NotDefined(nd)
            &&& nd matches NotDefinedError::GlobalConstant(n)
            &&& n@ == "RUBY_PATCHLEVEL"@
            &&& final(interp).heap@.len() == h0 + 4
            &&& forall|id: int| 0 <= id < h0 ==> final(interp).heap@[id] == old(interp).heap@[id]
            &&& final(interp).globals@.len() == old(interp).globals@.len() + 4
            &&& forall|k: int|
                4 <= k < final(interp).globals@.len() ==> final(interp).globals@[k] == old(
                    interp,
                ).globals@[k - 4]
            &&& global_is(
                final(interp).globals@[3],
                "RUBY_COPYRIGHT".spec_bytes(),
                Value::String(old(interp).heap.len()),
            )
            &&& global_is(
                final(interp).globals@[2],
                "RUBY_DESCRIPTION".spec_bytes(),
                Value::String((h0 + 1) as usize),
            )
            &&& global_is(
                final(interp).globals@[1],
                "RUBY_ENGINE".spec_bytes(),
                Value::String((h0 + 2) as usize),
            )
            &&& global_is(
                final(interp).globals@[0],
                "RUBY_ENGINE_VERSION".spec_bytes(),
                Value::String((h0 + 3) as usize),
            )
            &&& frozen_string_at(final(interp).heap@, h0, encode_utf8(config.ruby_copyright@))
            &&& frozen_string_at(
                final(interp).heap@,
                h0 + 1,
                encode_utf8(config.ruby_description@),
            )
            &&& frozen_string_at(final(interp).heap@, h0 + 2, encode_utf8(config.ruby_engine@))
            &&& frozen_string_at(
                final(interp).heap@,
                h0 + 3,
                encode_utf8(config.ruby_engine_version@),
            )
            &&& final(interp).classes == old(interp).classes
            &&& final(interp).symbols == old(interp).symbols
            &&& final(interp).boxed == old(interp).boxed
        },
        parse_decimal(config.ruby_patchlevel.spec_bytes()) is Some && parse_decimal(
            config.ruby_revision.spec_bytes(),
        ) is None ==> {
            let h0 = old(interp).heap@.len() as int;
            &&& r matches Err(e)
            &&& e matches Error::NotDefined(nd)
            &&& nd matches NotDefinedError::GlobalConstant(n)
            &&& n@ == "RUBY_REVISION"@
            &&& final(interp).heap@.len() == h0 + 6
            &&& forall|id: int| 0 <= id < h0 ==> final(interp).heap@[id] == old(interp).heap@[id]
            &&& final(interp).globals@.len() == old(interp).globals@.len() + 7
            &&& forall|k: int|
                7 <= k < final(interp).globals@.len() ==> final(interp).globals@[k] == old(
                    interp,
                ).globals@[k - 7]
            &&& global_is(
                final(interp).globals@[6],
                "RUBY_COPYRIGHT".spec_bytes(),
                Value::String(old(interp).heap.len()),
            )
            &&& global_is(
                final(interp).globals@[5],
                "RUBY_DESCRIPTION".spec_bytes(),
                Value::String((h0 + 1) as usize),
            )
            &&& global_is(
                final(interp).globals@[4],
                "RUBY_ENGINE".spec_bytes(),
                Value::String((h0 + 2) as usize),
            )
            &&& global_is(
                final(interp).globals@[3],
                "RUBY_ENGINE_VERSION".spec_bytes(),
                Value::String((h0 + 3) as usize),
            )
            &&& global_is(
                final(interp).globals@[2],
                "RUBY_PATCHLEVEL".spec_bytes(),
                Value::Fixnum(parse_decimal(config.ruby_patchlevel.spec_bytes())->Some_0 as i64),
            )
            &&& global_is(
                final(interp).globals@[1],
                "RUBY_PLATFORM".spec_bytes(),
                Value::String((h0 + 4) as usize),
            )
            &&& global_is(
                final(interp).globals@[0],
                "RUBY_RELEASE_DATE".spec_bytes(),
                Value::String((h0 + 5) as usize),
            )
            &&& frozen_string_at(final(interp).heap@, h0, encode_utf8(config.ruby_copyright@))
            &&& frozen_string_at(
                final(interp).heap@,
                h0 + 1,
                encode_utf8(config.ruby_description@),
            )
            &&& frozen_string_at(final(interp).heap@, h0 + 2, encode_utf8(config.ruby_engine@))
            &&& frozen_string_at(
                final(interp).heap@,
                h0 + 3,
                encode_utf8(config.ruby_engine_version@),
            )
            &&& frozen_string_at(final(interp).heap@, h0 + 4, encode_utf8(config.ruby_platform@))
            &&& frozen_string_at(
                final(interp).heap@,
                h0 + 5,
                encode_utf8(config.ruby_release_date@),
            )
            &&& final(interp).classes == old(interp).classes
            &&& final(interp).symbols == old(interp).symbols
            &&& final(interp).boxed == old(interp).boxed
        },
        r is Ok ==> {
            let h0 = old(interp).heap@.len() as int;
            &&& final(interp).heap@.len() == h0 + 8
            &&& forall|id: int| 0 <= id < h0 ==> final(interp).heap@[id] == old(interp).heap@[id]
            &&& final(interp).globals@.len() == old(interp).globals@.len() + 10
            &&& forall|k: int|
                10 <= k < final(interp).globals@.len() ==> final(interp).globals@[k] == old(
                    interp,
                ).globals@[k - 10]
            &&& global_is(
                final(interp).globals@[9],
                "RUBY_COPYRIGHT".spec_bytes(),
                Value::String(old(interp).heap.len()),
            )
            &&& global_is(
                final(interp).globals@[8],
                "RUBY_DESCRIPTION".spec_bytes(),
                Value::String((h0 + 1) as usize),
            )
            &&& global_is(
                final(interp).globals@[7],
                "RUBY_ENGINE".spec_bytes(),
                Value::String((h0 + 2) as usize),
            )
            &&& global_is(
                final(interp).globals@[6],
                "RUBY_ENGINE_VERSION".spec_bytes(),
                Value::String((h0 + 3) as usize),
            )
            &&& global_is(
                final(interp).globals@[5],
                "RUBY_PATCHLEVEL".spec_bytes(),
                Value::Fixnum(parse_decimal(config.ruby_patchlevel.spec_bytes())->Some_0 as i64),
            )
            &&& global_is(
                final(interp).globals@[4],
                "RUBY_PLATFORM".spec_bytes(),
                Value::String((h0 + 4) as usize),
            )
            &&& global_is(
                final(interp).globals@[3],
                "RUBY_RELEASE_DATE".spec_bytes(),
                Value::String((h0 + 5) as usize),
            )
            &&& global_is(
                final(interp).globals@[2],
                "RUBY_REVISION".spec_bytes(),
                Value::Fixnum(parse_decimal(config.ruby_revision.spec_bytes())->Some_0 as i64),
            )
            &&& global_is(
                final(interp).globals@[1],
                "RUBY_VERSION".spec_bytes(),
                Value::String((h0 + 6) as usize),
            )
            &&& global_is(
                final(interp).globals@[0],
                "ARTICHOKE_COMPILER_VERSION".spec_bytes(),
                Value::String((h0 + 7) as usize),
            )
            &&& frozen_string_at(final(interp).heap@, h0, encode_utf8(config.ruby_copyright@))
            &&& frozen_string_at(
                final(interp).heap@,
                h0 + 1,
                encode_utf8(config.ruby_description@),
            )
            &&& frozen_string_at(final(interp).heap@, h0 + 2, encode_utf8(config.ruby_engine@))
            &&& frozen_string_at(
                final(interp).heap@,
                h0 + 3,
                encode_utf8(config.ruby_engine_version@),
            )
            &&& frozen_string_at(final(interp).heap@, h0 + 4, encode_utf8(config.ruby_platform@))
            &&& frozen_string_at(
                final(interp).heap@,
                h0 + 5,
                encode_utf8(config.ruby_release_date@),
            )
            &&& frozen_string_at(final(interp).heap@, h0 + 6, encode_utf8(config.ruby_version@))
            &&& frozen_string_at(
                final(interp).heap@,
                h0 + 7,
                encode_utf8(config.artichoke_compiler_version@),
            )
            &&& core_classes_defined(final(interp).classes@)
            &&& crate::interp::top_level_class_exists(
                final(interp).classes@,
                encode_utf8("Integer"@),
            )
            &&& crate::interp::top_level_class_exists(
                final(interp).classes@,
                encode_utf8("IPSocket"@),
            )
            &&& crate::uri::top_level_module_exists(final(interp).classes@, encode_utf8("URI"@))
        },
{
    proof {
        reveal_strlit("RUBY_COPYRIGHT");
        reveal_strlit("RUBY_DESCRIPTION");
        reveal_strlit("RUBY_ENGINE");
        reveal_strlit("RUBY_ENGINE_VERSION");
        reveal_strlit("RUBY_PATCHLEVEL");
        reveal_strlit("RUBY_PLATFORM");
        reveal_strlit("RUBY_RELEASE_DATE");
        reveal_strlit("RUBY_REVISION");
        reveal_strlit("RUBY_VERSION");
        reveal_strlit("ARTICHOKE_COMPILER_VERSION");
        reveal_strlit("NameError");
        reveal_strlit("ScriptError");
        reveal_strlit("TypeError");
        reveal_strlit("ZeroDivisionError");
        reveal_strlit("RangeError");
        reveal_strlit("NotImplementedError");
        reveal_strlit("Integer");
        crate::string::lemma_ascii_no_nul("RUBY_COPYRIGHT");
        crate::string::lemma_ascii_no_nul("RUBY_DESCRIPTION");
        crate::string::lemma_ascii_no_nul("RUBY_ENGINE");
        crate::string::lemma_ascii_no_nul("RUBY_ENGINE_VERSION");
        crate::string::lemma_ascii_no_nul("RUBY_PATCHLEVEL");
        crate::string::lemma_ascii_no_nul("RUBY_PLATFORM");
        crate::string::lemma_ascii_no_nul("RUBY_RELEASE_DATE");
        crate::string::lemma_ascii_no_nul("RUBY_REVISION");
        crate::string::lemma_ascii_no_nul("RUBY_VERSION");
        crate::string::lemma_ascii_no_nul("ARTICHOKE_COMPILER_VERSION");
        crate::string::lemma_ascii_no_nul("NameError");
        crate::string::lemma_ascii_no_nul("ScriptError");
        crate::string::lemma_ascii_no_nul("TypeError");
        crate::string::lemma_ascii_no_nul("ZeroDivisionError");
        crate::string::lemma_ascii_no_nul("RangeError");
        crate::string::lemma_ascii_no_nul("NotImplementedError");
        crate::string::lemma_ascii_no_nul("Integer");
    }
    let result = interp.define_frozen_string_constant("RUBY_COPYRIGHT", config.ruby_copyright);
    proof {
        assert(result is Ok);
    }
    let result = interp.define_frozen_string_constant("RUBY_DESCRIPTION", config.ruby_description);
    proof {
        assert(result is Ok);
    }
    let result = interp.define_frozen_string_constant("RUBY_ENGINE", config.ruby_engine);
    proof {
        assert(result is Ok);
    }
    let result = interp.define_frozen_string_constant(
        "RUBY_ENGINE_VERSION",
        config.ruby_engine_version,
    );
    proof {
        assert(result is Ok);
    }
    let patchlevel = match parse_int(config.ruby_patchlevel) {
        Some(v) => v,
        None => {
            return Err(Error::NotDefined(NotDefinedError::global_constant(
                String::from_str("RUBY_PATCHLEVEL"),
            )));
        },
    };
    let pv = interp.convert_int(patchlevel);
    let result = interp.define_global_constant("RUBY_PATCHLEVEL", pv);
    proof {
        assert(result is Ok);
    }
    let result = interp.define_frozen_string_constant("RUBY_PLATFORM", config.ruby_platform);
    proof {
        assert(result is Ok);
    }
    let result = interp.define_frozen_string_constant(
        "RUBY_RELEASE_DATE",
        config.ruby_release_date,
    );
    proof {
        assert(result is Ok);
    }
    let revision = match parse_int(config.ruby_revision) {
        Some(v) => v,
        None => {
            return Err(Error::NotDefined(NotDefinedError::global_constant(
                String::from_str("RUBY_REVISION"),
            )));
        },
    };
    let rv = interp.convert_int(revision);
    let result = interp.define_global_constant("RUBY_REVISION", rv);
    proof {
        assert(result is Ok);
    }
    let result = interp.define_frozen_string_constant("RUBY_VERSION", config.ruby_version);
    proof {
        assert(result is Ok);
    }
    let result = interp.define_frozen_string_constant(
        "ARTICHOKE_COMPILER_VERSION",
        config.artichoke_compiler_version,
    );
    proof {
        assert(result is Ok);
    }
    let ghost snap_consts = *interp;
    let _ = interp.define_core_class("NameError");
    let _ = interp.define_core_class("ScriptError");
    let _ = interp.define_core_class("TypeError");
    let _ = interp.define_core_class("ZeroDivisionError");
    let _ = interp.define_core_class("RangeError");
    let _ = interp.define_core_class("NotImplementedError");
    let _ = interp.define_core_class("Integer");
    let result = crate::uri::init(interp);
    proof {
        assert(result is Ok);
        let cs = interp.classes@;
        let base = snap_consts.classes@.len() as int;
        assert(cs[base].name@ == encode_utf8("NameError"@) && cs[base].parent is None
            && !cs[base].is_module);
        assert(cs[base + 1].name@ == encode_utf8("ScriptError"@) && cs[base + 1].parent is None
            && !cs[base + 1].is_module);
        assert(cs[base + 2].name@ == encode_utf8("TypeError"@) && cs[base + 2].parent is None
            && !cs[base + 2].is_module);
        assert(cs[base + 3].name@ == encode_utf8("ZeroDivisionError"@) && cs[base
            + 3].parent is None && !cs[base + 3].is_module);
        assert(cs[base + 4].name@ == encode_utf8("RangeError"@) && cs[base + 4].parent is None
            && !cs[base + 4].is_module);
        assert(cs[base + 5].name@ == encode_utf8("NotImplementedError"@) && cs[base
            + 5].parent is None && !cs[base + 5].is_module);
        assert(cs[base + 6].name@ == encode_utf8("Integer"@) && cs[base + 6].parent is None
            && !cs[base + 6].is_module);
    }
    Ok(())
}

} // verus!
