//! Cooklang extension switches, and their conversion to and from the
//! parser's own flag set.
use vstd::prelude::*;
use cooklang::Extensions as ParserFlags;

verus! {

/// The parser's flag set, `cooklang::Extensions` (a bitflags type), known to
/// the verifier only through `set_bits` and the wrappers below.
#[verifier::external_type_specification]
#[verifier::external_body]
pub struct ExParserExtensions(ParserFlags);

/// The bit positions that are set in a cooklang `Extensions` flag set.
pub uninterp spec fn set_bits(ext: ParserFlags) -> Set<u32>;

/// Bit positions of the flags that cooklang defines, as its source declares them.
pub open spec fn component_modifiers_bits() -> Set<u32> { set![1u32] }
pub open spec fn component_alias_bits() -> Set<u32> { set![3u32] }
pub open spec fn advanced_units_bits() -> Set<u32> { set![5u32] }
pub open spec fn modes_bits() -> Set<u32> { set![6u32] }
pub open spec fn inline_quantities_bits() -> Set<u32> { set![7u32] }
pub open spec fn range_values_bits() -> Set<u32> { set![9u32] }
pub open spec fn timer_requires_time_bits() -> Set<u32> { set![10u32] }
/// `INTERMEDIATE_PREPARATIONS` is declared as bit 11 together with the bit of
/// `COMPONENT_MODIFIERS`.
pub open spec fn intermediate_preparations_bits() -> Set<u32> { set![1u32, 11u32] }

/// Every bit of a named flag: what `ParserFlags::all` holds.
pub open spec fn all_bits() -> Set<u32> {
    set![1u32, 3u32, 5u32, 6u32, 7u32, 9u32, 10u32, 11u32]
}

/// What `ParserFlags::COMPAT` holds: every flag but
/// `TIMER_REQUIRES_TIME`.
pub open spec fn compat_bits() -> Set<u32> {
    set![1u32, 3u32, 5u32, 6u32, 7u32, 9u32, 11u32]
}

/// `ParserFlags::empty`: no bit set.
#[verifier::external_body]
fn parser_empty() -> (r: ParserFlags)
    ensures
        set_bits(r) == Set::<u32>::empty(),
{
    ParserFlags::empty()
}

/// `ParserFlags::all`: the union of all named flags.
#[verifier::external_body]
fn parser_all() -> (r: ParserFlags)
    ensures
        set_bits(r) == all_bits(),
{
    ParserFlags::all()
}

/// The constant `ParserFlags::COMPAT`.
#[verifier::external_body]
fn parser_compat() -> (r: ParserFlags)
    ensures
        set_bits(r) == compat_bits(),
{
    ParserFlags::COMPAT
}

/// The constant `ParserFlags::COMPONENT_MODIFIERS` (`1 << 1`).
#[verifier::external_body]
fn flag_component_modifiers() -> (r: ParserFlags)
    ensures
        set_bits(r) == component_modifiers_bits(),
{
    ParserFlags::COMPONENT_MODIFIERS
}

/// The constant `ParserFlags::COMPONENT_ALIAS` (`1 << 3`).
#[verifier::external_body]
fn flag_component_alias() -> (r: ParserFlags)
    ensures
        set_bits(r) == component_alias_bits(),
{
    ParserFlags::COMPONENT_ALIAS
}

/// The constant `ParserFlags::ADVANCED_UNITS` (`1 << 5`).
#[verifier::external_body]
fn flag_advanced_units() -> (r: ParserFlags)
    ensures
        set_bits(r) == advanced_units_bits(),
{
    ParserFlags::ADVANCED_UNITS
}

/// The constant `ParserFlags::MODES` (`1 << 6`).
#[verifier::external_body]
fn flag_modes() -> (r: ParserFlags)
    ensures
        set_bits(r) == modes_bits(),
{
    ParserFlags::MODES
}

/// The constant `ParserFlags::INLINE_QUANTITIES` (`1 << 7`).
#[verifier::external_body]
fn flag_inline_quantities() -> (r: ParserFlags)
    ensures
        set_bits(r) == inline_quantities_bits(),
{
    ParserFlags::INLINE_QUANTITIES
}

/// The constant `ParserFlags::RANGE_VALUES` (`1 << 9`).
#[verifier::external_body]
fn flag_range_values() -> (r: ParserFlags)
    ensures
        set_bits(r) == range_values_bits(),
{
    ParserFlags::RANGE_VALUES
}

/// The constant `ParserFlags::TIMER_REQUIRES_TIME` (`1 << 10`).
#[verifier::external_body]
fn flag_timer_requires_time() -> (r: ParserFlags)
    ensures
        set_bits(r) == timer_requires_time_bits(),
{
    ParserFlags::TIMER_REQUIRES_TIME
}

/// The constant `ParserFlags::INTERMEDIATE_PREPARATIONS`
/// (`1 << 11 | COMPONENT_MODIFIERS`).
#[verifier::external_body]
fn flag_intermediate_preparations() -> (r: ParserFlags)
    ensures
        set_bits(r) == intermediate_preparations_bits(),
{
    ParserFlags::INTERMEDIATE_PREPARATIONS
}

/// `BitOrAssign` of `ParserFlags` (`*ext |= other`): the bitflags
/// source makes it an `insert`, the union of both sets of bits.
#[verifier::external_body]
fn parser_insert(ext: &mut ParserFlags, other: ParserFlags)
    ensures
        set_bits(*final(ext)) == set_bits(*old(ext)).union(set_bits(other)),
{
    *ext |= other;
}

/// `ParserFlags::contains`: the bitflags source computes
/// `self & other == other`, that is, whether every bit of `other` is set.
#[verifier::external_body]
fn parser_contains(ext: &ParserFlags, other: ParserFlags) -> (r: bool)
    ensures
        r == set_bits(other).subset_of(set_bits(*ext)),
{
    ext.contains(other)
}

/// Cooklang extensions control optional language features
///
/// Extensions are designed to be backward-compatible - canonical recipes parse
/// the same way regardless of which extensions are enabled. Extensions only
/// activate when you use their specific syntax.
#[derive(Debug, Clone, Copy, PartialEq, Eq, Structural)]
pub struct Extensions {
    /// Enables component modifiers: @@recipe, @&reference, @-hidden, @?optional, @+new
    pub component_modifiers: bool,
    /// Enables component aliases: @white wine|wine{}
    pub component_alias: bool,
    /// Allows space instead of % in units (@water{1 L}) and enables unit compatibility checks
    pub advanced_units: bool,
    /// Enables special [mode] metadata to control parsing behavior
    pub modes: bool,
    /// Searches for temperatures and other inline quantities in text
    pub inline_quantities: bool,
    /// Enables range values: @eggs{2-4}, @water{200-300%ml}
    pub range_values: bool,
    /// Makes timers without time values invalid
    pub timer_requires_time: bool,
    /// Enables intermediate preparations: @&(~1)dough{}
    /// Automatically enables component_modifiers
    pub intermediate_preparations: bool,
}

/// The bits of `flag` when `on`, none otherwise.
pub open spec fn bits_if(on: bool, flag: Set<u32>) -> Set<u32> {
    if on { flag } else { Set::empty() }
}

impl Extensions {
    /// The bits that the parser's flag set holds for these switches: the union
    /// of the bits of every enabled extension.
    pub open spec fn parser_bits(self) -> Set<u32> {
        bits_if(self.component_modifiers, component_modifiers_bits())
            .union(bits_if(self.component_alias, component_alias_bits()))
            .union(bits_if(self.advanced_units, advanced_units_bits()))
            .union(bits_if(self.modes, modes_bits()))
            .union(bits_if(self.inline_quantities, inline_quantities_bits()))
            .union(bits_if(self.range_values, range_values_bits()))
            .union(bits_if(self.timer_requires_time, timer_requires_time_bits()))
            .union(bits_if(self.intermediate_preparations, intermediate_preparations_bits()))
    }

    /// The switches that a parser flag set holding `bits` stands for: an
    /// extension is on when all of its bits are set.
    pub open spec fn from_parser_bits(bits: Set<u32>) -> Extensions {
        Extensions {
            component_modifiers: component_modifiers_bits().subset_of(bits),
            component_alias: component_alias_bits().subset_of(bits),
            advanced_units: advanced_units_bits().subset_of(bits),
            modes: modes_bits().subset_of(bits),
            inline_quantities: inline_quantities_bits().subset_of(bits),
            range_values: range_values_bits().subset_of(bits),
            timer_requires_time: timer_requires_time_bits().subset_of(bits),
            intermediate_preparations: intermediate_preparations_bits().subset_of(bits),
        }
    }

    /// Builds the parser's flag set with the bit of every enabled extension.
    pub fn to_parser(self) -> (r: ParserFlags)
        ensures
            set_bits(r) == self.parser_bits(),
    {
        let mut result = parser_empty();
        if self.component_modifiers {
            parser_insert(&mut result, flag_component_modifiers());
        }
        if self.component_alias {
            parser_insert(&mut result, flag_component_alias());
        }
        if self.advanced_units {
            parser_insert(&mut result, flag_advanced_units());
        }
        if self.modes {
            parser_insert(&mut result, flag_modes());
        }
        if self.inline_quantities {
            parser_insert(&mut result, flag_inline_quantities());
        }
        if self.range_values {
            parser_insert(&mut result, flag_range_values());
        }
        if self.timer_requires_time {
            parser_insert(&mut result, flag_timer_requires_time());
        }
        if self.intermediate_preparations {
            parser_insert(&mut result, flag_intermediate_preparations());
        }
        proof {
            assert(set_bits(result) =~= self.parser_bits());
        }
        result
    }

    /// Reads the switches out of the parser's flag set.
    pub fn from_parser(ext: &ParserFlags) -> (r: Extensions)
        ensures
            r == Extensions::from_parser_bits(set_bits(*ext)),
    {
        Extensions {
            component_modifiers: parser_contains(ext, flag_component_modifiers()),
            component_alias: parser_contains(ext, flag_component_alias()),
            advanced_units: parser_contains(ext, flag_advanced_units()),
            modes: parser_contains(ext, flag_modes()),
            inline_quantities: parser_contains(ext, flag_inline_quantities()),
            range_values: parser_contains(ext, flag_range_values()),
            timer_requires_time: parser_contains(ext, flag_timer_requires_time()),
            intermediate_preparations: parser_contains(ext, flag_intermediate_preparations()),
        }
    }
}

/// Converting switches to the parser's flags and back gives the same
/// switches, except that `intermediate_preparations` turns
/// `component_modifiers` on: its flag carries the bit of that extension.
pub proof fn lemma_switches_round_trip(e: Extensions)
    ensures
        Extensions::from_parser_bits(e.parser_bits()) == (Extensions {
            component_modifiers: e.component_modifiers || e.intermediate_preparations,
            ..e
        }),
        e.intermediate_preparations ==> e.parser_bits().contains(1u32),
        (e.intermediate_preparations ==> e.component_modifiers) ==> Extensions::from_parser_bits(
            e.parser_bits(),
        ) == e,
{
    let b = e.parser_bits();
    assert(b.contains(1u32) <==> (e.component_modifiers || e.intermediate_preparations));
    assert(b.contains(3u32) <==> e.component_alias);
    assert(b.contains(5u32) <==> e.advanced_units);
    assert(b.contains(6u32) <==> e.modes);
    assert(b.contains(7u32) <==> e.inline_quantities);
    assert(b.contains(9u32) <==> e.range_values);
    assert(b.contains(10u32) <==> e.timer_requires_time);
    assert(b.contains(11u32) <==> e.intermediate_preparations);
    if e.component_modifiers || e.intermediate_preparations {
        assert(component_modifiers_bits().subset_of(b));
    } else {
        assert(!b.contains(1u32));
    }
    if e.intermediate_preparations {
        assert(intermediate_preparations_bits().subset_of(b));
    } else {
        assert(!b.contains(11u32));
    }
    if !e.component_alias {
        assert(!b.contains(3u32));
    }
    if !e.advanced_units {
        assert(!b.contains(5u32));
    }
    if !e.modes {
        assert(!b.contains(6u32));
    }
    if !e.inline_quantities {
        assert(!b.contains(7u32));
    }
    if !e.range_values {
        assert(!b.contains(9u32));
    }
    if !e.timer_requires_time {
        assert(!b.contains(10u32));
    }
}

/// Reading the switches out of a parser flag set and converting them back
/// gives the same flag set, for every set made of named flags (the bit of
/// intermediate preparations never stands without that of component
/// modifiers in a named flag).
pub proof fn lemma_flags_round_trip(bits: Set<u32>)
    requires
        bits.subset_of(all_bits()),
        bits.contains(11u32) ==> bits.contains(1u32),
    ensures
        Extensions::from_parser_bits(bits).parser_bits() == bits,
{
    let e = Extensions::from_parser_bits(bits);
    assert(e.component_modifiers == bits.contains(1u32));
    assert(e.component_alias == bits.contains(3u32));
    assert(e.advanced_units == bits.contains(5u32));
    assert(e.modes == bits.contains(6u32));
    assert(e.inline_quantities == bits.contains(7u32));
    assert(e.range_values == bits.contains(9u32));
    assert(e.timer_requires_time == bits.contains(10u32));
    assert(e.intermediate_preparations == bits.contains(11u32));
    assert(e.parser_bits() =~= bits);
}

/// Create an Extensions configuration with all extensions enabled
///
/// This is the recommended default as extensions are backward-compatible.
pub fn extensions_all() -> (r: Extensions)
    ensures
        r == Extensions::from_parser_bits(all_bits()),
        r == (Extensions {
            component_modifiers: true,
            component_alias: true,
            advanced_units: true,
            modes: true,
            inline_quantities: true,
            range_values: true,
            timer_requires_time: true,
            intermediate_preparations: true,
        }),
{
    let all = parser_all();
    Extensions::from_parser(&all)
}

/// Create an Extensions configuration with no extensions enabled
///
/// This matches the canonical Cooklang spec without any extensions.
pub fn extensions_empty() -> (r: Extensions)
    ensures
        r == Extensions::from_parser_bits(Set::empty()),
        r == (Extensions {
            component_modifiers: false,
            component_alias: false,
            advanced_units: false,
            modes: false,
            inline_quantities: false,
            range_values: false,
            timer_requires_time: false,
            intermediate_preparations: false,
        }),
{
    let empty = parser_empty();
    let r = Extensions::from_parser(&empty);
    proof {
        assert(component_modifiers_bits().contains(1u32));
        assert(component_alias_bits().contains(3u32));
        assert(advanced_units_bits().contains(5u32));
        assert(modes_bits().contains(6u32));
        assert(inline_quantities_bits().contains(7u32));
        assert(range_values_bits().contains(9u32));
        assert(timer_requires_time_bits().contains(10u32));
        assert(intermediate_preparations_bits().contains(11u32));
    }
    r
}

/// Create an Extensions configuration for maximum compatibility
///
/// Enables all extensions except TIMER_REQUIRES_TIME to maximize
/// compatibility with other cooklang parsers.
pub fn extensions_compat() -> (r: Extensions)
    ensures
        r == Extensions::from_parser_bits(compat_bits()),
        r == (Extensions {
            component_modifiers: true,
            component_alias: true,
            advanced_units: true,
            modes: true,
            inline_quantities: true,
            range_values: true,
            timer_requires_time: false,
            intermediate_preparations: true,
        }),
{
    let compat = parser_compat();
    let r = Extensions::from_parser(&compat);
    proof {
        assert(timer_requires_time_bits().contains(10u32));
        assert(!compat_bits().contains(10u32));
    }
    r
}

/// Create a custom Extensions configuration
pub fn extensions_custom(
    component_modifiers: bool,
    component_alias: bool,
    advanced_units: bool,
    modes: bool,
    inline_quantities: bool,
    range_values: bool,
    timer_requires_time: bool,
    intermediate_preparations: bool,
) -> (r: Extensions)
    ensures
        r == (Extensions {
            component_modifiers,
            component_alias,
            advanced_units,
            modes,
            inline_quantities,
            range_values,
            timer_requires_time,
            intermediate_preparations,
        }),
{
    Extensions {
        component_modifiers,
        component_alias,
        advanced_units,
        modes,
        inline_quantities,
        range_values,
        timer_requires_time,
        intermediate_preparations,
    }
}

} // verus!
