use vstd::prelude::*;

verus! {

/// One `name=value` pair of a start tag.
#[derive(Debug, Clone, PartialEq, Eq)]
pub struct Attribute {
    pub name: String,
    pub value: String,
}

/// What an attribute holds: the characters of its name and of its value.
pub struct AttributeView {
    pub name: Seq<char>,
    pub value: Seq<char>,
}

impl View for Attribute {
    type V = AttributeView;

    open spec fn view(&self) -> AttributeView {
        AttributeView { name: self.name@, value: self.value@ }
    }
}

/// An attribute list seen as a sequence of views.
pub open spec fn attrs_view(v: Seq<Attribute>) -> Seq<AttributeView> {
    Seq::new(v.len(), |i: int| v[i]@)
}

impl Attribute {
    /// The attribute with an empty name and an empty value.
    pub fn new() -> (a: Self)
        ensures
            a@.name == Seq::<char>::empty(),
            a@.value == Seq::<char>::empty(),
    {
        Self { name: String::new(), value: String::new() }
    }

    /// Appends `c` to the name when `is_name` is set, else to the value.
    pub fn add_char(&mut self, c: char, is_name: bool)
        ensures
            final(self)@ == add_char_view(old(self)@, c, is_name),
    {
        if is_name {
            self.name.push(c);
        } else {
            self.value.push(c);
        }
    }

    pub fn name(&self) -> (s: String)
        ensures
            s@ == self@.name,
    {
        self.name.clone()
    }

    pub fn value(&self) -> (s: String)
        ensures
            s@ == self@.value,
    {
        self.value.clone()
    }

    /// A copy with the same name and value.
    pub fn duplicate(&self) -> (a: Self)
        ensures
            a@ == self@,
    {
        Self { name: self.name.clone(), value: self.value.clone() }
    }
}

/// The view after one more character went to the name or to the value.
pub open spec fn add_char_view(a: AttributeView, c: char, is_name: bool) -> AttributeView {
    if is_name {
        AttributeView { name: a.name.push(c), value: a.value }
    } else {
        AttributeView { name: a.name, value: a.value.push(c) }
    }
}

/// A copy of a whole attribute list.
pub fn duplicate_attributes(v: &Vec<Attribute>) -> (r: Vec<Attribute>)
    ensures
        attrs_view(r@) == attrs_view(v@),
{
    let mut r: Vec<Attribute> = Vec::new();
    let mut i: usize = 0;
    while i < v.len()
        invariant
            i <= v.len(),
            r@.len() == i,
            forall|j: int| 0 <= j < i ==> r@[j]@ == v@[j]@,
        decreases v.len() - i,
    {
        r.push(v[i].duplicate());
        i += 1;
    }
    assert(attrs_view(r@) =~= attrs_view(v@));
    r
}

} // verus!
