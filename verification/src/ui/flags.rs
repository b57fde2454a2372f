//! Bit sets of widget states, widget options, mouse buttons and key modifiers.

use vstd::prelude::*;

verus! {

/// The outcome of a control in one frame: whether its value changed, whether it was submitted, whether it is active.
#[derive(Clone, Copy, Debug, PartialEq, Eq, Structural)]
pub struct ResourceState {
    bits: u32,
}

impl View for ResourceState {
    type V = u32;

    closed spec fn view(&self) -> u32 {
        self.bits
    }
}

impl ResourceState {
    #[allow(non_snake_case)]
    pub fn CHANGE() -> (r: ResourceState)
        ensures
            r@ == 4u32,
    {
        ResourceState { bits: 4 }
    }
    #[allow(non_snake_case)]
    pub fn SUBMIT() -> (r: ResourceState)
        ensures
            r@ == 2u32,
    {
        ResourceState { bits: 2 }
    }
    #[allow(non_snake_case)]
    pub fn ACTIVE() -> (r: ResourceState)
        ensures
            r@ == 1u32,
    {
        ResourceState { bits: 1 }
    }
    #[allow(non_snake_case)]
    pub fn NONE() -> (r: ResourceState)
        ensures
            r@ == 0u32,
    {
        ResourceState { bits: 0 }
    }

    /// The bits of every flag of this set together.
    pub open spec fn all_bits() -> u32 {
        7u32
    }

    /// The flag with this value, if one is defined; `NONE` for zero.
    pub fn from_bits(bits: u32) -> (r: Option<ResourceState>)
        ensures
            r is Some <==> bits & !Self::all_bits() == 0,
            r matches Some(f) ==> f@ == bits,
    {
        if bits & !7u32 == 0 {
            Some(ResourceState { bits })
        } else {
            None
        }
    }

    /// The set of the bits of `bits` that name a flag.
    pub fn from_bits_truncate(bits: u32) -> (r: ResourceState)
        ensures
            r@ == bits & Self::all_bits(),
    {
        ResourceState { bits: bits & 7u32 }
    }

    pub fn bits(&self) -> (b: u32)
        ensures
            b == self@,
    {
        self.bits
    }

    pub fn empty() -> (r: ResourceState)
        ensures
            r@ == 0,
    {
        ResourceState { bits: 0 }
    }

    pub fn all() -> (r: ResourceState)
        ensures
            r@ == Self::all_bits(),
    {
        ResourceState { bits: 7 }
    }

    pub fn is_empty(&self) -> (b: bool)
        ensures
            b == (self@ == 0),
    {
        self.bits == 0
    }

    /// Whether `self` and `other` have a flag in common.
    pub fn intersects(&self, other: ResourceState) -> (b: bool)
        ensures
            b == (self@ & other@ != 0),
    {
        self.bits & other.bits != 0
    }

    /// Whether every flag of `other` is in `self`.
    pub fn contains(&self, other: ResourceState) -> (b: bool)
        ensures
            b == (self@ & other@ == other@),
    {
        self.bits & other.bits == other.bits
    }

    pub fn union(self, other: ResourceState) -> (r: ResourceState)
        ensures
            r@ == self@ | other@,
    {
        ResourceState { bits: self.bits | other.bits }
    }

    pub fn intersection(self, other: ResourceState) -> (r: ResourceState)
        ensures
            r@ == self@ & other@,
    {
        ResourceState { bits: self.bits & other.bits }
    }

    pub fn difference(self, other: ResourceState) -> (r: ResourceState)
        ensures
            r@ == self@ & !other@,
    {
        ResourceState { bits: self.bits & !other.bits }
    }

    /// The flags not in `self`.
    pub fn complement(self) -> (r: ResourceState)
        ensures
            r@ == !self@ & Self::all_bits(),
    {
        ResourceState { bits: !self.bits & 7u32 }
    }

    /// Adds the flags of `other`.
    pub fn insert(&mut self, other: ResourceState)
        ensures
            final(self)@ == old(self)@ | other@,
    {
        self.bits = self.bits | other.bits;
    }

    /// Removes the flags of `other`.
    pub fn remove(&mut self, other: ResourceState)
        ensures
            final(self)@ == old(self)@ & !other@,
    {
        self.bits = self.bits & !other.bits;
    }

    pub fn is_changed(&self) -> (b: bool)
        ensures
            b == (self@ & 4u32 != 0),
    {
        self.bits & 4 != 0
    }

    pub fn is_submitted(&self) -> (b: bool)
        ensures
            b == (self@ & 2u32 != 0),
    {
        self.bits & 2 != 0
    }

    pub fn is_active(&self) -> (b: bool)
        ensures
            b == (self@ & 1u32 != 0),
    {
        self.bits & 1 != 0
    }

    pub fn is_none(&self) -> (b: bool)
        ensures
            b == (self@ == 0),
    {
        self.bits == 0
    }
}

/// Options that change how a widget or container behaves and is drawn.
#[derive(Clone, Copy, Debug, PartialEq, Eq, Structural)]
pub struct WidgetOption {
    bits: u32,
}

impl View for WidgetOption {
    type V = u32;

    closed spec fn view(&self) -> u32 {
        self.bits
    }
}

impl WidgetOption {
    /// The empty option set.
    pub closed spec fn spec_none() -> WidgetOption {
        WidgetOption { bits: 0 }
    }

    /// An option set without any option is the empty one.
    pub proof fn lemma_spec_none(w: WidgetOption)
        ensures
            Self::spec_none()@ == 0,
            w@ == 0 ==> w == Self::spec_none(),
    {
    }

    #[allow(non_snake_case)]
    pub fn SET_SIZE() -> (r: WidgetOption)
        ensures
            r@ == 4096u32,
    {
        WidgetOption { bits: 4096 }
    }
    #[allow(non_snake_case)]
    pub fn EXPANDED() -> (r: WidgetOption)
        ensures
            r@ == 2048u32,
    {
        WidgetOption { bits: 2048 }
    }
    #[allow(non_snake_case)]
    pub fn CLOSED() -> (r: WidgetOption)
        ensures
            r@ == 1024u32,
    {
        WidgetOption { bits: 1024 }
    }
    #[allow(non_snake_case)]
    pub fn POPUP() -> (r: WidgetOption)
        ensures
            r@ == 512u32,
    {
        WidgetOption { bits: 512 }
    }
    #[allow(non_snake_case)]
    pub fn HOLD_FOCUS() -> (r: WidgetOption)
        ensures
            r@ == 256u32,
    {
        WidgetOption { bits: 256 }
    }
    #[allow(non_snake_case)]
    pub fn NO_TITLE() -> (r: WidgetOption)
        ensures
            r@ == 128u32,
    {
        WidgetOption { bits: 128 }
    }
    #[allow(non_snake_case)]
    pub fn NO_CLOSE() -> (r: WidgetOption)
        ensures
            r@ == 64u32,
    {
        WidgetOption { bits: 64 }
    }
    #[allow(non_snake_case)]
    pub fn NO_SCROLL() -> (r: WidgetOption)
        ensures
            r@ == 32u32,
    {
        WidgetOption { bits: 32 }
    }
    #[allow(non_snake_case)]
    pub fn NO_RESIZE() -> (r: WidgetOption)
        ensures
            r@ == 16u32,
    {
        WidgetOption { bits: 16 }
    }
    #[allow(non_snake_case)]
    pub fn NO_FRAME() -> (r: WidgetOption)
        ensures
            r@ == 8u32,
    {
        WidgetOption { bits: 8 }
    }
    #[allow(non_snake_case)]
    pub fn NO_INTERACT() -> (r: WidgetOption)
        ensures
            r@ == 4u32,
    {
        WidgetOption { bits: 4 }
    }
    #[allow(non_snake_case)]
    pub fn ALIGN_RIGHT() -> (r: WidgetOption)
        ensures
            r@ == 2u32,
    {
        WidgetOption { bits: 2 }
    }
    #[allow(non_snake_case)]
    pub fn ALIGN_CENTER() -> (r: WidgetOption)
        ensures
            r@ == 1u32,
    {
        WidgetOption { bits: 1 }
    }
    #[allow(non_snake_case)]
    pub fn NONE() -> (r: WidgetOption)
        ensures
            r@ == 0u32,
    {
        WidgetOption { bits: 0 }
    }

    /// The bits of every flag of this set together.
    pub open spec fn all_bits() -> u32 {
        8191u32
    }

    /// The flag with this value, if one is defined; `NONE` for zero.
    pub fn from_bits(bits: u32) -> (r: Option<WidgetOption>)
        ensures
            r is Some <==> bits & !Self::all_bits() == 0,
            r matches Some(f) ==> f@ == bits,
    {
        if bits & !8191u32 == 0 {
            Some(WidgetOption { bits })
        } else {
            None
        }
    }

    /// The set of the bits of `bits` that name a flag.
    pub fn from_bits_truncate(bits: u32) -> (r: WidgetOption)
        ensures
            r@ == bits & Self::all_bits(),
    {
        WidgetOption { bits: bits & 8191u32 }
    }

    pub fn bits(&self) -> (b: u32)
        ensures
            b == self@,
    {
        self.bits
    }

    pub fn empty() -> (r: WidgetOption)
        ensures
            r@ == 0,
    {
        WidgetOption { bits: 0 }
    }

    pub fn all() -> (r: WidgetOption)
        ensures
            r@ == Self::all_bits(),
    {
        WidgetOption { bits: 8191 }
    }

    pub fn is_empty(&self) -> (b: bool)
        ensures
            b == (self@ == 0),
    {
        self.bits == 0
    }

    /// Whether `self` and `other` have a flag in common.
    pub fn intersects(&self, other: WidgetOption) -> (b: bool)
        ensures
            b == (self@ & other@ != 0),
    {
        self.bits & other.bits != 0
    }

    /// Whether every flag of `other` is in `self`.
    pub fn contains(&self, other: WidgetOption) -> (b: bool)
        ensures
            b == (self@ & other@ == other@),
    {
        self.bits & other.bits == other.bits
    }

    pub fn union(self, other: WidgetOption) -> (r: WidgetOption)
        ensures
            r@ == self@ | other@,
    {
        WidgetOption { bits: self.bits | other.bits }
    }

    pub fn intersection(self, other: WidgetOption) -> (r: WidgetOption)
        ensures
            r@ == self@ & other@,
    {
        WidgetOption { bits: self.bits & other.bits }
    }

    pub fn difference(self, other: WidgetOption) -> (r: WidgetOption)
        ensures
            r@ == self@ & !other@,
    {
        WidgetOption { bits: self.bits & !other.bits }
    }

    /// The flags not in `self`.
    pub fn complement(self) -> (r: WidgetOption)
        ensures
            r@ == !self@ & Self::all_bits(),
    {
        WidgetOption { bits: !self.bits & 8191u32 }
    }

    /// Adds the flags of `other`.
    pub fn insert(&mut self, other: WidgetOption)
        ensures
            final(self)@ == old(self)@ | other@,
    {
        self.bits = self.bits | other.bits;
    }

    /// Removes the flags of `other`.
    pub fn remove(&mut self, other: WidgetOption)
        ensures
            final(self)@ == old(self)@ & !other@,
    {
        self.bits = self.bits & !other.bits;
    }

    pub fn is_setting_size(&self) -> (b: bool)
        ensures
            b == (self@ & 4096u32 != 0),
    {
        self.bits & 4096 != 0
    }

    pub fn is_expanded(&self) -> (b: bool)
        ensures
            b == (self@ & 2048u32 != 0),
    {
        self.bits & 2048 != 0
    }

    pub fn is_closed(&self) -> (b: bool)
        ensures
            b == (self@ & 1024u32 != 0),
    {
        self.bits & 1024 != 0
    }

    pub fn is_popup(&self) -> (b: bool)
        ensures
            b == (self@ & 512u32 != 0),
    {
        self.bits & 512 != 0
    }

    pub fn is_holding_focus(&self) -> (b: bool)
        ensures
            b == (self@ & 256u32 != 0),
    {
        self.bits & 256 != 0
    }

    pub fn has_no_title(&self) -> (b: bool)
        ensures
            b == (self@ & 128u32 != 0),
    {
        self.bits & 128 != 0
    }

    pub fn has_no_close(&self) -> (b: bool)
        ensures
            b == (self@ & 64u32 != 0),
    {
        self.bits & 64 != 0
    }

    pub fn has_no_scroll(&self) -> (b: bool)
        ensures
            b == (self@ & 32u32 != 0),
    {
        self.bits & 32 != 0
    }

    pub fn is_fixed(&self) -> (b: bool)
        ensures
            b == (self@ & 16u32 != 0),
    {
        self.bits & 16 != 0
    }

    pub fn has_no_frame(&self) -> (b: bool)
        ensures
            b == (self@ & 8u32 != 0),
    {
        self.bits & 8 != 0
    }

    pub fn is_not_interactive(&self) -> (b: bool)
        ensures
            b == (self@ & 4u32 != 0),
    {
        self.bits & 4 != 0
    }

    pub fn is_aligned_right(&self) -> (b: bool)
        ensures
            b == (self@ & 2u32 != 0),
    {
        self.bits & 2 != 0
    }

    pub fn is_aligned_center(&self) -> (b: bool)
        ensures
            b == (self@ & 1u32 != 0),
    {
        self.bits & 1 != 0
    }

    pub fn is_none(&self) -> (b: bool)
        ensures
            b == (self@ == 0),
    {
        self.bits == 0
    }
}

/// A set of mouse buttons.
#[derive(Clone, Copy, Debug, PartialEq, Eq, Structural)]
pub struct MouseButton {
    bits: u32,
}

impl View for MouseButton {
    type V = u32;

    closed spec fn view(&self) -> u32 {
        self.bits
    }
}

impl MouseButton {
    #[allow(non_snake_case)]
    pub fn MIDDLE() -> (r: MouseButton)
        ensures
            r@ == 4u32,
    {
        MouseButton { bits: 4 }
    }
    #[allow(non_snake_case)]
    pub fn RIGHT() -> (r: MouseButton)
        ensures
            r@ == 2u32,
    {
        MouseButton { bits: 2 }
    }
    #[allow(non_snake_case)]
    pub fn LEFT() -> (r: MouseButton)
        ensures
            r@ == 1u32,
    {
        MouseButton { bits: 1 }
    }
    #[allow(non_snake_case)]
    pub fn NONE() -> (r: MouseButton)
        ensures
            r@ == 0u32,
    {
        MouseButton { bits: 0 }
    }

    /// The bits of every flag of this set together.
    pub open spec fn all_bits() -> u32 {
        7u32
    }

    /// The flag with this value, if one is defined; `NONE` for zero.
    pub fn from_bits(bits: u32) -> (r: Option<MouseButton>)
        ensures
            r is Some <==> bits & !Self::all_bits() == 0,
            r matches Some(f) ==> f@ == bits,
    {
        if bits & !7u32 == 0 {
            Some(MouseButton { bits })
        } else {
            None
        }
    }

    /// The set of the bits of `bits` that name a flag.
    pub fn from_bits_truncate(bits: u32) -> (r: MouseButton)
        ensures
            r@ == bits & Self::all_bits(),
    {
        MouseButton { bits: bits & 7u32 }
    }

    pub fn bits(&self) -> (b: u32)
        ensures
            b == self@,
    {
        self.bits
    }

    pub fn empty() -> (r: MouseButton)
        ensures
            r@ == 0,
    {
        MouseButton { bits: 0 }
    }

    pub fn all() -> (r: MouseButton)
        ensures
            r@ == Self::all_bits(),
    {
        MouseButton { bits: 7 }
    }

    pub fn is_empty(&self) -> (b: bool)
        ensures
            b == (self@ == 0),
    {
        self.bits == 0
    }

    /// Whether `self` and `other` have a flag in common.
    pub fn intersects(&self, other: MouseButton) -> (b: bool)
        ensures
            b == (self@ & other@ != 0),
    {
        self.bits & other.bits != 0
    }

    /// Whether every flag of `other` is in `self`.
    pub fn contains(&self, other: MouseButton) -> (b: bool)
        ensures
            b == (self@ & other@ == other@),
    {
        self.bits & other.bits == other.bits
    }

    pub fn union(self, other: MouseButton) -> (r: MouseButton)
        ensures
            r@ == self@ | other@,
    {
        MouseButton { bits: self.bits | other.bits }
    }

    pub fn intersection(self, other: MouseButton) -> (r: MouseButton)
        ensures
            r@ == self@ & other@,
    {
        MouseButton { bits: self.bits & other.bits }
    }

    pub fn difference(self, other: MouseButton) -> (r: MouseButton)
        ensures
            r@ == self@ & !other@,
    {
        MouseButton { bits: self.bits & !other.bits }
    }

    /// The flags not in `self`.
    pub fn complement(self) -> (r: MouseButton)
        ensures
            r@ == !self@ & Self::all_bits(),
    {
        MouseButton { bits: !self.bits & 7u32 }
    }

    /// Adds the flags of `other`.
    pub fn insert(&mut self, other: MouseButton)
        ensures
            final(self)@ == old(self)@ | other@,
    {
        self.bits = self.bits | other.bits;
    }

    /// Removes the flags of `other`.
    pub fn remove(&mut self, other: MouseButton)
        ensures
            final(self)@ == old(self)@ & !other@,
    {
        self.bits = self.bits & !other.bits;
    }

    pub fn is_middle(&self) -> (b: bool)
        ensures
            b == (self@ & 4u32 != 0),
    {
        self.bits & 4 != 0
    }

    pub fn is_right(&self) -> (b: bool)
        ensures
            b == (self@ & 2u32 != 0),
    {
        self.bits & 2 != 0
    }

    pub fn is_left(&self) -> (b: bool)
        ensures
            b == (self@ & 1u32 != 0),
    {
        self.bits & 1 != 0
    }

    pub fn is_none(&self) -> (b: bool)
        ensures
            b == (self@ == 0),
    {
        self.bits == 0
    }
}

/// A set of keys and key modifiers.
#[derive(Clone, Copy, Debug, PartialEq, Eq, Structural)]
pub struct KeyModifier {
    bits: u32,
}

impl View for KeyModifier {
    type V = u32;

    closed spec fn view(&self) -> u32 {
        self.bits
    }
}

impl KeyModifier {
    #[allow(non_snake_case)]
    pub fn RETURN() -> (r: KeyModifier)
        ensures
            r@ == 16u32,
    {
        KeyModifier { bits: 16 }
    }
    #[allow(non_snake_case)]
    pub fn BACKSPACE() -> (r: KeyModifier)
        ensures
            r@ == 8u32,
    {
        KeyModifier { bits: 8 }
    }
    #[allow(non_snake_case)]
    pub fn ALT() -> (r: KeyModifier)
        ensures
            r@ == 4u32,
    {
        KeyModifier { bits: 4 }
    }
    #[allow(non_snake_case)]
    pub fn CTRL() -> (r: KeyModifier)
        ensures
            r@ == 2u32,
    {
        KeyModifier { bits: 2 }
    }
    #[allow(non_snake_case)]
    pub fn SHIFT() -> (r: KeyModifier)
        ensures
            r@ == 1u32,
    {
        KeyModifier { bits: 1 }
    }
    #[allow(non_snake_case)]
    pub fn NONE() -> (r: KeyModifier)
        ensures
            r@ == 0u32,
    {
        KeyModifier { bits: 0 }
    }

    /// The bits of every flag of this set together.
    pub open spec fn all_bits() -> u32 {
        31u32
    }

    /// The flag with this value, if one is defined; `NONE` for zero.
    pub fn from_bits(bits: u32) -> (r: Option<KeyModifier>)
        ensures
            r is Some <==> bits & !Self::all_bits() == 0,
            r matches Some(f) ==> f@ == bits,
    {
        if bits & !31u32 == 0 {
            Some(KeyModifier { bits })
        } else {
            None
        }
    }

    /// The set of the bits of `bits` that name a flag.
    pub fn from_bits_truncate(bits: u32) -> (r: KeyModifier)
        ensures
            r@ == bits & Self::all_bits(),
    {
        KeyModifier { bits: bits & 31u32 }
    }

    pub fn bits(&self) -> (b: u32)
        ensures
            b == self@,
    {
        self.bits
    }

    pub fn empty() -> (r: KeyModifier)
        ensures
            r@ == 0,
    {
        KeyModifier { bits: 0 }
    }

    pub fn all() -> (r: KeyModifier)
        ensures
            r@ == Self::all_bits(),
    {
        KeyModifier { bits: 31 }
    }

    pub fn is_empty(&self) -> (b: bool)
        ensures
            b == (self@ == 0),
    {
        self.bits == 0
    }

    /// Whether `self` and `other` have a flag in common.
    pub fn intersects(&self, other: KeyModifier) -> (b: bool)
        ensures
            b == (self@ & other@ != 0),
    {
        self.bits & other.bits != 0
    }

    /// Whether every flag of `other` is in `self`.
    pub fn contains(&self, other: KeyModifier) -> (b: bool)
        ensures
            b == (self@ & other@ == other@),
    {
        self.bits & other.bits == other.bits
    }

    pub fn union(self, other: KeyModifier) -> (r: KeyModifier)
        ensures
            r@ == self@ | other@,
    {
        KeyModifier { bits: self.bits | other.bits }
    }

    pub fn intersection(self, other: KeyModifier) -> (r: KeyModifier)
        ensures
            r@ == self@ & other@,
    {
        KeyModifier { bits: self.bits & other.bits }
    }

    pub fn difference(self, other: KeyModifier) -> (r: KeyModifier)
        ensures
            r@ == self@ & !other@,
    {
        KeyModifier { bits: self.bits & !other.bits }
    }

    /// The flags not in `self`.
    pub fn complement(self) -> (r: KeyModifier)
        ensures
            r@ == !self@ & Self::all_bits(),
    {
        KeyModifier { bits: !self.bits & 31u32 }
    }

    /// Adds the flags of `other`.
    pub fn insert(&mut self, other: KeyModifier)
        ensures
            final(self)@ == old(self)@ | other@,
    {
        self.bits = self.bits | other.bits;
    }

    /// Removes the flags of `other`.
    pub fn remove(&mut self, other: KeyModifier)
        ensures
            final(self)@ == old(self)@ & !other@,
    {
        self.bits = self.bits & !other.bits;
    }

    pub fn is_return(&self) -> (b: bool)
        ensures
            b == (self@ & 16u32 != 0),
    {
        self.bits & 16 != 0
    }

    pub fn is_backspace(&self) -> (b: bool)
        ensures
            b == (self@ & 8u32 != 0),
    {
        self.bits & 8 != 0
    }

    pub fn is_alt(&self) -> (b: bool)
        ensures
            b == (self@ & 4u32 != 0),
    {
        self.bits & 4 != 0
    }

    pub fn is_ctrl(&self) -> (b: bool)
        ensures
            b == (self@ & 2u32 != 0),
    {
        self.bits & 2 != 0
    }

    pub fn is_shift(&self) -> (b: bool)
        ensures
            b == (self@ & 1u32 != 0),
    {
        self.bits & 1 != 0
    }

    pub fn is_none(&self) -> (b: bool)
        ensures
            b == (self@ == 0),
    {
        self.bits == 0
    }
}

/// Inserting flags makes a set contain them; removing them afterwards
/// leaves the set as if they had only been removed, and it then shares
/// nothing with them.
pub proof fn lemma_insert_then_remove(x: u32, k: u32)
    by (bit_vector)
    ensures
        (x | k) & k == k,
        (x | k) & !k == x & !k,
        (x & !k) & k == 0,
{
}

/// Flags that go in and then out of a set bounded by `all` leave it without
/// them and with every other flag as it was.
pub proof fn lemma_press_release(held: u32, k: u32, all: u32)
    by (bit_vector)
    ensures
        ((held | k) & (!k & all)) & k == 0,
        (held | k) & (!k & all) == held & !k & all,
{
}


/// The keys a key event hands the UI: return for the enter key, together
/// with the one modifier held alone (alt, else control, else shift), or
/// else backspace for the backspace key.
pub open spec fn spec_key_event_bits(enter: bool, backspace: bool, only_alt: bool, only_ctrl: bool, only_shift: bool) -> u32 {
    (if enter { 16u32 } else { 0u32 }) | (if only_alt {
        4u32
    } else if only_ctrl {
        2u32
    } else if only_shift {
        1u32
    } else if backspace {
        8u32
    } else {
        0u32
    })
}

/// The key set of a key event: whether the key is enter or backspace, and
/// which modifier, if any, is held alone.
pub fn key_event_modifier(enter: bool, backspace: bool, only_alt: bool, only_ctrl: bool, only_shift: bool) -> (k: KeyModifier)
    ensures
        k@ == spec_key_event_bits(enter, backspace, only_alt, only_ctrl, only_shift),
{
    let first = if enter { KeyModifier::RETURN() } else { KeyModifier::NONE() };
    let second = if only_alt {
        KeyModifier::ALT()
    } else if only_ctrl {
        KeyModifier::CTRL()
    } else if only_shift {
        KeyModifier::SHIFT()
    } else if backspace {
        KeyModifier::BACKSPACE()
    } else {
        KeyModifier::NONE()
    };
    first.union(second)
}

} // verus!
