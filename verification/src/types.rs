//! The types of the source language, and the environment that maps
//! declared names to their types during a type-checking pass.

use vstd::prelude::*;

verus! {

/// A type of the source language. Equality is structural.
#[derive(Debug, PartialEq)]
pub enum Type {
    Int,
    Float,
    Bool,
    String,
    Void,
    Function { params: Vec<Type>, return_type: Box<Type> },
}

/// The mathematical model of a source-language type.
pub enum Ty {
    Int,
    Float,
    Bool,
    String,
    Void,
    Function { params: Seq<Ty>, return_type: Box<Ty> },
}

/// The models of a sequence of types, elementwise.
pub open spec fn deep_view_types(types: Seq<Type>) -> Seq<Ty>
    decreases types,
{
    if types.len() == 0 {
        Seq::empty()
    } else {
        proof {
            assert(decreases_to!(types => types[0]));
            assert(decreases_to!(types => types.subrange(1, types.len() as int)));
        }
        seq![types[0].deep_view()] + deep_view_types(types.subrange(1, types.len() as int))
    }
}

pub proof fn lemma_deep_view_types(types: Seq<Type>)
    ensures
        deep_view_types(types).len() == types.len(),
        forall|i: int|
            #![trigger deep_view_types(types)[i]]
            #![trigger types[i].deep_view()]
            0 <= i < types.len() ==> deep_view_types(types)[i] == types[i].deep_view(),
    decreases types.len(),
{
    if types.len() > 0 {
        let sub = types.subrange(1, types.len() as int);
        lemma_deep_view_types(sub);
        assert forall|i: int| 0 <= i < types.len() implies deep_view_types(types)[i]
            == types[i].deep_view() by {
            if i > 0 {
                assert(sub[i - 1] == types[i]);
            }
        }
    }
}

impl DeepView for Type {
    type V = Ty;

    open spec fn deep_view(&self) -> Ty {
        Type::deep_view(self)
    }
}

impl Type {
    /// The model of this type: the same structure over sequences.
    pub open spec fn deep_view(&self) -> Ty
        decreases self,
    {
        match self {
            Type::Int => Ty::Int,
            Type::Float => Ty::Float,
            Type::Bool => Ty::Bool,
            Type::String => Ty::String,
            Type::Void => Ty::Void,
            Type::Function { params, return_type } => {
                proof {
                    assert(decreases_to!(self => params));
                    assert(decreases_to!(params => params@));
                }
                Ty::Function {
                    params: deep_view_types(params@),
                    return_type: Box::new(Type::deep_view(&**return_type)),
                }
            },
        }
    }

    /// Builds a function type from its parameter types and return type.
    pub fn function(params: Vec<Type>, return_type: Type) -> (r: Type)
        ensures
            r.deep_view() == (Ty::Function {
                params: deep_view_types(params@),
                return_type: Box::new(return_type.deep_view()),
            }),
    {
        Type::Function { params, return_type: Box::new(return_type) }
    }

    /// The void type.
    pub fn void() -> (r: Type)
        ensures
            r.deep_view() == Ty::Void,
    {
        Type::Void
    }

    /// Returns a structurally identical copy of this type.
    pub fn duplicate(&self) -> (r: Type)
        ensures
            r.deep_view() == self.deep_view(),
        decreases self,
    {
        match self {
            Type::Int => Type::Int,
            Type::Float => Type::Float,
            Type::Bool => Type::Bool,
            Type::String => Type::String,
            Type::Void => Type::Void,
            Type::Function { params, return_type } => {
                let mut params_copy: Vec<Type> = Vec::new();
                let mut i: usize = 0;
                proof {
                    lemma_deep_view_types(params@);
                    lemma_deep_view_types(params_copy@);
                }
                while i < params.len()
                    invariant
                        *self is Function,
                        (*self)->Function_params == *params,
                        i <= params.len(),
                        params_copy@.len() == i,
                        forall|j: int|
                            0 <= j < i ==> params_copy@[j].deep_view()
                                == #[trigger] params@[j].deep_view(),
                    decreases params.len() - i,
                {
                    proof {
                        assert(decreases_to!(*self => self->Function_params));
                        assert(decreases_to!(self->Function_params => self->Function_params@));
                        assert(decreases_to!(self->Function_params@
                            => self->Function_params@[i as int]));
                        assert(self->Function_params == *params);
                    }
                    let copied = params[i].duplicate();
                    params_copy.push(copied);
                    i = i + 1;
                }
                proof {
                    assert(decreases_to!(self => return_type));
                }
                let ret_copy = (**return_type).duplicate();
                proof {
                    lemma_deep_view_types(params@);
                    lemma_deep_view_types(params_copy@);
                    assert(deep_view_types(params_copy@) =~= deep_view_types(params@));
                }
                Type::Function { params: params_copy, return_type: Box::new(ret_copy) }
            },
        }
    }
}

/// The mapping described by a sequence of (name, value) entries, where a
/// later entry for a name overrides an earlier one.
pub open spec fn map_of<V>(entries: Seq<(Seq<char>, V)>) -> Map<Seq<char>, V>
    decreases entries.len(),
{
    if entries.len() == 0 {
        Map::empty()
    } else {
        map_of(entries.drop_last()).insert(entries.last().0, entries.last().1)
    }
}

/// Pushing an entry updates the described mapping at that entry's name.
pub proof fn lemma_map_of_push<V>(entries: Seq<(Seq<char>, V)>, name: Seq<char>, value: V)
    ensures
        map_of(entries.push((name, value))) == map_of(entries).insert(name, value),
{
    assert(entries.push((name, value)).drop_last() =~= entries);
}

/// If no entry at or beyond position `i` carries `name`, the described
/// mapping at `name` is that of the first `i` entries.
pub proof fn lemma_map_of_absent_suffix<V>(entries: Seq<(Seq<char>, V)>, i: int, name: Seq<char>)
    requires
        0 <= i <= entries.len(),
        forall|j: int| i <= j < entries.len() ==> (#[trigger] entries[j]).0 != name,
    ensures
        map_of(entries).contains_key(name) == map_of(entries.subrange(0, i)).contains_key(name),
        map_of(entries).contains_key(name) ==> map_of(entries)[name]
            == map_of(entries.subrange(0, i))[name],
    decreases entries.len() - i,
{
    if i < entries.len() {
        lemma_map_of_absent_suffix(entries, i + 1, name);
        let pre = entries.subrange(0, i + 1);
        assert(pre.drop_last() =~= entries.subrange(0, i));
        assert(pre.last() == entries[i]);
    } else {
        assert(entries.subrange(0, i) =~= entries);
    }
}

/// The environment consulted and extended while type-checking: a mapping
/// from declared names to their types.
#[derive(Debug)]
pub struct TypeEnvironment {
    symbols: Vec<(String, Type)>,
}

impl View for TypeEnvironment {
    type V = Map<Seq<char>, Ty>;

    closed spec fn view(&self) -> Map<Seq<char>, Ty> {
        map_of(self.symbols.deep_view())
    }
}

impl TypeEnvironment {
    /// Creates an empty environment.
    pub fn new() -> (r: TypeEnvironment)
        ensures
            r@ == Map::<Seq<char>, Ty>::empty(),
    {
        TypeEnvironment { symbols: Vec::new() }
    }

    /// Binds `name` to `type_`, overriding any earlier binding of `name`.
    pub fn insert(&mut self, name: String, type_: Type)
        ensures
            final(self)@ == old(self)@.insert(name@, type_.deep_view()),
    {
        let ghost entries = self.symbols.deep_view();
        let ghost pair = (name@, type_.deep_view());
        self.symbols.push((name, type_));
        proof {
            assert(self.symbols.deep_view() =~= entries.push(pair));
            lemma_map_of_push(entries, pair.0, pair.1);
        }
    }

    /// Looks up the type bound to `name`, if any.
    pub fn get(&self, name: &str) -> (r: Option<&Type>)
        ensures
            match r {
                Some(t) => self@.contains_key(name@) && t.deep_view() == self@[name@],
                None => !self@.contains_key(name@),
            },
    {
        let key: String = name.to_owned();
        let ghost entries = self.symbols.deep_view();
        let mut i: usize = self.symbols.len();
        while i > 0
            invariant
                key@ == name@,
                i <= self.symbols.len(),
                entries == self.symbols.deep_view(),
                forall|j: int| i <= j < entries.len() ==> (#[trigger] entries[j]).0 != name@,
            decreases i,
        {
            i = i - 1;
            if self.symbols[i].0 == key {
                proof {
                    lemma_map_of_absent_suffix(entries, i + 1, name@);
                    let pre = entries.subrange(0, i as int + 1);
                    assert(pre.drop_last() =~= entries.subrange(0, i as int));
                    assert(pre.last() == entries[i as int]);
                }
                return Some(&self.symbols[i].1);
            }
        }
        proof {
            lemma_map_of_absent_suffix(entries, 0, name@);
            assert(entries.subrange(0, 0) =~= Seq::<(Seq<char>, Ty)>::empty());
        }
        None
    }
}

} // verus!
