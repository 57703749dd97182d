//! Transformed namespaces: a namespace whose features are computed from
//! the numbers of another one, declared as `T=function(F)`.

use crate::scalar::Scalar;
use crate::vwmap::VwNamespaceMap;
use vstd::bytes::spec_u32_to_le_bytes;
use vstd::bytes::u32_to_le_bytes;
use vstd::prelude::*;
use vstd::string::StrSliceExecFns;
use vstd::string::StringExecFns;

verus! {

/// The bit that marks the index of a transformed namespace.
pub const TRANSFORM_NAMESPACE_MARK: u32 = 0x8000_0000;

/// Keeps the low 31 bits of a hash.
pub const MASK31: u32 = 0x7FFF_FFFF;

/// One declared transform: namespace `to` is `function` of namespace `from`.
#[derive(Clone, Copy, Debug, PartialEq, Eq, Structural)]
pub struct NamespaceTransform {
    pub to_namespace_char: char,
    pub to_namespace_index: u32,
    pub from_namespace_char: char,
    pub from_namespace_index: u32,
    pub function: TransformFunction,
}

/// The functions that a transform can apply.
#[derive(Clone, Copy, Debug, PartialEq, Eq, Structural)]
pub enum TransformFunction {
    Sqrt,
}

/// The declared transforms, in the order of their declaration.
#[derive(Clone, Debug)]
pub struct TransformNamespaces {
    pub v: Vec<NamespaceTransform>,
}

/// Why a transform declaration is refused.
#[derive(Clone, Copy, Debug, PartialEq, Eq, Structural)]
pub enum TransformError {
    /// The character names neither a declared nor a transformed namespace.
    UnknownNamespace(char),
    /// The source namespace is not declared as carrying numbers.
    NotFloatNamespace(char),
    /// The source namespace is itself a transformed namespace.
    AlreadyTransformed(char),
    /// The target namespace exists already.
    TargetExists(char),
    /// The function has no implementation.
    UnknownFunction,
}

/// What the regular expression `pattern` captures in `text`: nothing where
/// it does not match, and else for each capture group, the whole match
/// first, the text that it took, if it took part in the match.
pub uninterp spec fn spec_regex_captures(pattern: Seq<char>, text: Seq<char>) -> Option<
    Seq<Option<Seq<char>>>,
>;

/// The value of MurmurHash3's 32-bit variant on `bytes` under `seed`.
pub uninterp spec fn spec_murmur3_32(bytes: Seq<u8>, seed: u32) -> u32;

/// `regex::Regex::new` and then `regex::Regex::captures`: the capture
/// groups of the first match of `pattern` in `text`, the whole match first,
/// each with the text that it took. `None` where there is no match, and
/// where `pattern` is no valid regular expression. The contract gives the
/// result a name and says nothing more of it.
#[verifier::external_body]
fn regex_captures(pattern: &str, text: &str) -> (r: Option<Vec<Option<String>>>)
    ensures
        spec_groups(r) == spec_regex_captures(pattern@, text@),
{
    let expression = regex::Regex::new(pattern).ok()?;
    let captures = expression.captures(text)?;
    Some(captures.iter().map(|group| group.map(|m| m.as_str().to_string())).collect())
}

/// `fasthash::murmur3::hash32_with_seed`: MurmurHash3's 32-bit hash of
/// `bytes` under `seed`. The outside function hands the length on as a
/// 32-bit signed number, so longer inputs are left out.
#[verifier::external_body]
fn murmur3_hash32_with_seed(bytes: &[u8], seed: u32) -> (r: u32)
    requires
        bytes@.len() <= i32::MAX,
    ensures
        r == spec_murmur3_32(bytes@, seed),
{
    fasthash::murmur3::hash32_with_seed(bytes, seed)
}

/// The index that the next transformed namespace gets: its position among
/// the transforms, as 32 bits, with the mark set.
pub open spec fn spec_transform_index(position: nat) -> u32 {
    ((position % 0x1_0000_0000) as u32) | TRANSFORM_NAMESPACE_MARK
}

/// The first transform whose target is `namespace_char`, from `from` on.
pub open spec fn spec_find_transform(
    v: Seq<NamespaceTransform>,
    namespace_char: char,
    from: int,
) -> Option<NamespaceTransform>
    decreases v.len() - from,
{
    if from < 0 || from >= v.len() {
        None
    } else if v[from].to_namespace_char == namespace_char {
        Some(v[from])
    } else {
        spec_find_transform(v, namespace_char, from + 1)
    }
}

/// The index of a namespace: that of its declaration where it is declared,
/// else that of the first transform that has it as target.
pub open spec fn spec_namespace_id(
    v: Seq<NamespaceTransform>,
    vw: &VwNamespaceMap,
    namespace_char: char,
) -> Result<u32, TransformError> {
    match vw.spec_index(namespace_char) {
        Some(index) => Ok(index),
        None => match spec_find_transform(v, namespace_char, 0) {
            Some(transform) => Ok(transform.to_namespace_index),
            None => Err(TransformError::UnknownNamespace(namespace_char)),
        },
    }
}

/// The declaration that the capture groups stand for: target, function name
/// and source. It takes the whole match and three groups that all took part
/// in it, of which the first and the third hold one character each.
pub open spec fn spec_declaration(captures: Option<Seq<Option<Seq<char>>>>) -> Option<
    (char, Seq<char>, char),
> {
    match captures {
        Some(groups) => if groups.len() == 4 {
            match (groups[1], groups[2], groups[3]) {
                (Some(to), Some(function), Some(from)) => if to.len() == 1 && from.len() == 1 {
                    Some((to[0], function, from[0]))
                } else {
                    None
                },
                _ => None,
            }
        } else {
            None
        },
        None => None,
    }
}

/// What declaring a transform gives: the transforms with the new one at the
/// end, or the first reason against it. The source must be a known
/// namespace, declared as carrying numbers, and not itself transformed; the
/// target must be new; the function must be `sqrt`. Where there is no
/// declaration, the transforms stay as they are.
pub open spec fn spec_add_transform(
    v: Seq<NamespaceTransform>,
    vw: &VwNamespaceMap,
    declaration: Option<(char, Seq<char>, char)>,
) -> Result<Seq<NamespaceTransform>, TransformError> {
    match declaration {
        None => Ok(v),
        Some((to, function, from)) => match spec_namespace_id(v, vw, from) {
            Err(e) => Err(e),
            Ok(from_index) => if !vw.spec_is_float(from) {
                Err(TransformError::NotFloatNamespace(from))
            } else if from_index & TRANSFORM_NAMESPACE_MARK != 0 {
                Err(TransformError::AlreadyTransformed(from))
            } else if spec_namespace_id(v, vw, to) is Ok {
                Err(TransformError::TargetExists(to))
            } else if function != "sqrt"@ {
                Err(TransformError::UnknownFunction)
            } else {
                Ok(
                    v.push(
                        NamespaceTransform {
                            to_namespace_char: to,
                            to_namespace_index: spec_transform_index(v.len()),
                            from_namespace_char: from,
                            from_namespace_index: from_index,
                            function: TransformFunction::Sqrt,
                        },
                    ),
                )
            },
        },
    }
}

/// The grammar of a transform declaration: one character, `=`, a function
/// name, and one character in brackets.
pub fn namespace_transform_pattern() -> (r: &'static str)
    ensures
        r@ == spec_namespace_transform_pattern(),
{
    r"^(.)=(\w+)\((.)\)$"
}

/// The grammar of a transform declaration, as a regular expression.
pub open spec fn spec_namespace_transform_pattern() -> Seq<char> {
    r"^(.)=(\w+)\((.)\)$"@
}

impl View for TransformNamespaces {
    type V = Seq<NamespaceTransform>;

    open spec fn view(&self) -> Seq<NamespaceTransform> {
        self.v@
    }
}

impl TransformNamespaces {
    /// No transforms.
    pub fn new() -> (r: TransformNamespaces)
        ensures
            r@ == Seq::<NamespaceTransform>::empty(),
    {
        TransformNamespaces { v: Vec::new() }
    }

    /// Declares the transform that `s` spells out, as `T=function(F)`. A
    /// text of another shape declares nothing and is accepted. What the
    /// pattern captures in `s` is the regular expression engine's word; what
    /// is done with it is `add_declared_transform`.
    pub fn add_transform_namespace(&mut self, vw: &VwNamespaceMap, s: &str) -> (r: Result<
        (),
        TransformError,
    >)
        ensures
            match spec_add_transform(
                old(self)@,
                vw,
                spec_declaration(spec_regex_captures(spec_namespace_transform_pattern(), s@)),
            ) {
                Ok(v) => r is Ok && final(self)@ == v,
                Err(e) => r == Err::<(), TransformError>(e) && final(self)@ == old(self)@,
            },
    {
        let captures = regex_captures(namespace_transform_pattern(), s);
        self.add_declared_transform(vw, captures)
    }

    /// Declares the transform that the capture groups stand for. The
    /// transform joins the list behind all others, with the next free
    /// marked index, unless something speaks against it; the list is then
    /// unchanged and the error says what it was. The checks come in this
    /// order: the source is a known namespace, it carries numbers, it is not
    /// itself transformed, the target is new, the function is `sqrt`.
    pub fn add_declared_transform(
        &mut self,
        vw: &VwNamespaceMap,
        captures: Option<Vec<Option<String>>>,
    ) -> (r: Result<(), TransformError>)
        ensures
            match spec_add_transform(old(self)@, vw, spec_declaration(spec_groups(captures))) {
                Ok(v) => r is Ok && final(self)@ == v,
                Err(e) => r == Err::<(), TransformError>(e) && final(self)@ == old(self)@,
            },
    {
        let groups = match captures {
            Some(groups) => groups,
            None => {
                return Ok(());
            },
        };
        assert(spec_groups(captures) == Some(Seq::new(groups@.len(), |i: int| spec_group(groups@[i]))));
        if groups.len() != 4 {
            return Ok(());
        }
        let (to, function, from) = match (&groups[1], &groups[2], &groups[3]) {
            (Some(to), Some(function), Some(from)) => (to, function, from),
            _ => {
                return Ok(());
            },
        };
        if to.as_str().unicode_len() != 1 || from.as_str().unicode_len() != 1 {
            return Ok(());
        }
        let to_namespace_char = to.as_str().get_char(0);
        let from_namespace_char = from.as_str().get_char(0);
        let from_namespace_index = match get_namespace_id(self, vw, from_namespace_char) {
            Ok(index) => index,
            Err(e) => {
                return Err(e);
            },
        };
        if !vw.is_float(from_namespace_char) {
            return Err(TransformError::NotFloatNamespace(from_namespace_char));
        }
        if from_namespace_index & TRANSFORM_NAMESPACE_MARK != 0 {
            return Err(TransformError::AlreadyTransformed(from_namespace_char));
        }
        if get_namespace_id(self, vw, to_namespace_char).is_ok() {
            return Err(TransformError::TargetExists(to_namespace_char));
        }
        let sqrt = String::from_str("sqrt");
        if !(*function == sqrt) {
            return Err(TransformError::UnknownFunction);
        }
        let position = (self.v.len() as u64 % 0x1_0000_0000u64) as u32;
        let to_namespace_index = position | TRANSFORM_NAMESPACE_MARK;
        self.v.push(
            NamespaceTransform {
                to_namespace_char,
                to_namespace_index,
                from_namespace_char,
                from_namespace_index,
                function: TransformFunction::Sqrt,
            },
        );
        Ok(())
    }

    /// The transform behind the index of a transformed namespace: the mark
    /// is taken off, and what is left is the transform's position.
    pub fn transform_of(&self, feature_index_offset: u32) -> (r: Option<NamespaceTransform>)
        ensures
            r == if ((feature_index_offset & MASK31) as int) < self@.len() {
                Some(self@[(feature_index_offset & MASK31) as int])
            } else {
                None
            },
    {
        let position = (feature_index_offset & MASK31) as usize;
        if position < self.v.len() {
            Some(self.v[position])
        } else {
            None
        }
    }
}

/// A capture group as a sequence of characters.
pub open spec fn spec_group(group: Option<String>) -> Option<Seq<char>> {
    match group {
        Some(text) => Some(text@),
        None => None,
    }
}

/// The capture groups as sequences of characters.
pub open spec fn spec_groups(captures: Option<Vec<Option<String>>>) -> Option<
    Seq<Option<Seq<char>>>,
> {
    match captures {
        Some(groups) => Some(Seq::new(groups@.len(), |i: int| spec_group(groups@[i]))),
        None => None,
    }
}

/// The index of a namespace: that of its declaration where it is declared,
/// else that of the first transform that has it as target. A character that
/// names neither is refused.
pub fn get_namespace_id(
    transform_namespaces: &TransformNamespaces,
    vw: &VwNamespaceMap,
    namespace_char: char,
) -> (r: Result<u32, TransformError>)
    ensures
        r == spec_namespace_id(transform_namespaces@, vw, namespace_char),
{
    match vw.index(namespace_char) {
        Some(index) => Ok(index),
        None => {
            let mut i: usize = 0;
            while i < transform_namespaces.v.len()
                invariant
                    vw.spec_index(namespace_char) is None,
                    i <= transform_namespaces.v@.len(),
                    spec_find_transform(transform_namespaces.v@, namespace_char, 0)
                        == spec_find_transform(transform_namespaces.v@, namespace_char, i as int),
                decreases transform_namespaces.v@.len() - i,
            {
                if transform_namespaces.v[i].to_namespace_char == namespace_char {
                    return Ok(transform_namespaces.v[i].to_namespace_index);
                }
                i += 1;
            }
            Err(TransformError::UnknownNamespace(namespace_char))
        },
    }
}

/// The feature that a transform emits for the number `hash_data`: the low
/// 31 bits of the hash of its four little-endian bytes under the namespace's
/// seed, with the weight handed through.
pub fn emit_u32(hash_data: u32, hash_value: Scalar, namespace_seed: u32) -> (r: (u32, Scalar))
    ensures
        r.0 == spec_murmur3_32(spec_u32_to_le_bytes(hash_data), namespace_seed) & MASK31,
        r.1 == hash_value,
{
    let bytes = u32_to_le_bytes(hash_data);
    let hash = murmur3_hash32_with_seed(bytes.as_slice(), namespace_seed);
    (hash & MASK31, hash_value)
}

} // verus!
