use vstd::prelude::*;

use string_interner::backend::StringBackend;
use string_interner::symbol::{Symbol, SymbolU32};
use string_interner::StringInterner;

verus! {

/// A string interner for event names, backed by `string-interner`'s `StringBackend`. Its
/// contents are known through `interned_strings`, and only the functions below reach into it.
#[verifier::external_body]
pub struct Interner {
    inner: StringInterner<StringBackend>,
}

/// The strings an interner holds, in the order they were first interned; a string's position
/// is the index of its symbol.
pub uninterp spec fn interned_strings(interner: Interner) -> Seq<Seq<char>>;

/// `StringInterner::new`: an interner that holds no strings.
#[verifier::external_body]
fn interner_new() -> (interner: Interner)
    ensures
        interned_strings(interner) == Seq::<Seq<char>>::empty(),
{
    Interner { inner: StringInterner::new() }
}

/// `StringInterner::get_or_intern`, with the symbol taken by its index (`Symbol::to_usize`).
/// A string already held keeps its index and leaves the interner unchanged; a new string is
/// appended and gets the next index. The interner never holds a string twice. It panics when
/// the symbol type runs out, so a new string may only be added while fewer than `u32::MAX`
/// strings are held.
#[verifier::external_body]
fn interner_get_or_intern(interner: &mut Interner, name: &str) -> (index: u32)
    requires
        !interned_strings(*old(interner)).contains(name@) ==> interned_strings(*old(interner)).len() < u32::MAX,
    ensures
        interned_strings(*old(interner)).contains(name@) ==> {
            &&& interned_strings(*final(interner)) == interned_strings(*old(interner))
            &&& index < interned_strings(*old(interner)).len()
            &&& interned_strings(*old(interner))[index as int] == name@
        },
        !interned_strings(*old(interner)).contains(name@) ==> {
            &&& interned_strings(*final(interner)) == interned_strings(*old(interner)).push(name@)
            &&& index == interned_strings(*old(interner)).len()
        },
        interned_strings(*old(interner)).no_duplicates() ==> interned_strings(*final(interner)).no_duplicates(),
{
    interner.inner.get_or_intern(name).to_usize() as u32
}

/// `StringInterner::len`: how many strings the interner holds.
#[verifier::external_body]
fn interner_len(interner: &Interner) -> (n: usize)
    ensures
        n == interned_strings(*interner).len(),
{
    interner.inner.len()
}

/// `StringInterner::resolve`, with the symbol made from its index (`Symbol::try_from_usize`):
/// the string at that index, if the interner holds that many.
#[verifier::external_body]
fn interner_resolve<'a>(interner: &'a Interner, index: u32) -> (name: Option<&'a str>)
    requires
        index < u32::MAX,
    ensures
        name is Some <==> index < interned_strings(*interner).len(),
        name is Some ==> name->0@ == interned_strings(*interner)[index as int],
{
    interner.inner.resolve(SymbolU32::try_from_usize(index as usize).unwrap())
}

/// An interned event name: the index of its symbol.
pub type EventName = u32;

/// The names of events, interned so handlers can be looked up by a small number.
pub struct EventNames {
    interner: Interner,
}

impl View for EventNames {
    type V = Seq<Seq<char>>;

    /// The interned names, by index.
    closed spec fn view(&self) -> Seq<Seq<char>> {
        interned_strings(self.interner)
    }
}

impl EventNames {
    pub closed spec fn wf(&self) -> bool {
        &&& self@.no_duplicates()
        &&& self@.len() <= u32::MAX
    }

    /// Law: a name is interned under one symbol only, so interning a name that is already
    /// interned gives back the symbol it had.
    pub proof fn lemma_symbols_unique(&self, a: EventName, b: EventName)
        requires
            self.wf(),
            a < self@.len(),
            b < self@.len(),
            self@[a as int] == self@[b as int],
        ensures
            a == b,
    {
    }

    pub fn new() -> (names: Self)
        ensures
            names.wf(),
            names@ == Seq::<Seq<char>>::empty(),
    {
        Self { interner: interner_new() }
    }

    /// How many names are interned.
    pub fn len(&self) -> (n: usize)
        ensures
            n == self@.len(),
    {
        interner_len(&self.interner)
    }

    /// Interns an event's name.
    /// Interned event names are used to make handler lookups faster.
    pub fn intern_event_name(&mut self, name: &str) -> (symbol: EventName)
        requires
            old(self).wf(),
            !old(self)@.contains(name@) ==> old(self)@.len() < u32::MAX,
        ensures
            final(self).wf(),
            symbol < final(self)@.len(),
            final(self)@[symbol as int] == name@,
            old(self)@.contains(name@) ==> final(self)@ == old(self)@,
            !old(self)@.contains(name@) ==> final(self)@ == old(self)@.push(name@),
    {
        interner_get_or_intern(&mut self.interner, name)
    }

    /// Gets an interned event's name, or `"NO_EVENT_NAME"` for a symbol that names nothing.
    pub fn get_event_name(&self, symbol: EventName) -> (name: &str)
        requires
            self.wf(),
        ensures
            symbol < self@.len() ==> name@ == self@[symbol as int],
            symbol >= self@.len() ==> name@ == "NO_EVENT_NAME"@,
    {
        if symbol == u32::MAX {
            return "NO_EVENT_NAME";
        }
        match interner_resolve(&self.interner, symbol) {
            Some(name) => name,
            None => "NO_EVENT_NAME",
        }
    }
}

} // verus!
