//! Scalars, small vectors and 4x4 matrices, as far as decoding needs them.

use crate::collada::mesh::vertices::AttributeModel;
use crate::collada::mesh::{component, find_component, Vertex};
use crate::collada::util::texts;
use crate::text::{decimal_digits, push_decimal, same_text, Literal};
use vstd::string::StringExecFns;
use vstd::prelude::*;

verus! {

/// The numbers that vectors and matrices hold: literals with a zero, a one
/// and a product.
pub trait Scalar: Literal + Copy {
    spec fn zero_value() -> Self;

    spec fn one_value() -> Self;

    spec fn product(a: Self, b: Self) -> Self;

    fn zero() -> (zero: Self)
        ensures
            zero == Self::zero_value(),
    ;

    fn one() -> (one: Self)
        ensures
            one == Self::one_value(),
    ;

    fn times(self, factor: Self) -> (product: Self)
        ensures
            product == Self::product(self, factor),
    ;
}

/// Whole numbers as scalars; their products wrap around.
impl Scalar for i64 {
    open spec fn zero_value() -> i64 {
        0
    }

    open spec fn one_value() -> i64 {
        1
    }

    open spec fn product(a: i64, b: i64) -> i64 {
        a.wrapping_mul(b)
    }

    fn zero() -> (zero: i64) {
        0
    }

    fn one() -> (one: i64) {
        1
    }

    fn times(self, factor: i64) -> (product: i64) {
        self.wrapping_mul(factor)
    }
}

/// A matrix literal that does not hold exactly 16 values.
#[derive(Copy, Clone, Debug)]
pub struct Matrix4CreationError {
    given_array_size: usize,
}

impl Matrix4CreationError {
    /// The number of values that the literal held.
    pub closed spec fn given(&self) -> nat {
        self.given_array_size as nat
    }

    /// The number of values that the literal held.
    pub fn given_array_size(&self) -> (size: usize)
        ensures
            size == self.given(),
    {
        self.given_array_size
    }

    /// The text that describes this failure.
    pub fn message(&self) -> (text: String)
        ensures
            text@ == "Expected length 16 array, received length "@ + decimal_digits(self.given())
                + " array"@,
    {
        let mut text = String::from_str("Expected length 16 array, received length ");
        push_decimal(&mut text, self.given_array_size);
        text.append(" array");
        text
    }
}

/// A vector of three scalars.
#[derive(Debug, Clone, Copy)]
pub struct Vector3<S> {
    pub x: S,
    pub y: S,
    pub z: S,
}

/// A vector of two scalars.
#[derive(Debug, Clone, Copy)]
pub struct Vector2<S> {
    pub x: S,
    pub y: S,
}

/// A 4x4 matrix in column-major order: entry `4 * column + row`.
#[derive(Debug, Clone, Copy)]
pub struct Matrix4<S> {
    pub values: [S; 16],
}

/// The entries of the identity matrix.
pub open spec fn identity_values<S: Scalar>() -> Seq<S> {
    Seq::new(
        16,
        |i: int|
            if i % 5 == 0 {
                S::one_value()
            } else {
                S::zero_value()
            },
    )
}

/// The entries `values` with those of column `column` replaced by `value`.
pub open spec fn with_column<S>(values: Seq<S>, column: int, value: Seq<S>) -> Seq<S> {
    Seq::new(
        16,
        |i: int|
            if 4 * column <= i < 4 * column + 4 {
                value[i - 4 * column]
            } else {
                values[i]
            },
    )
}

/// The entries `values` with the translation, the first three entries of
/// the last column, replaced by `trans`.
pub open spec fn with_translation<S>(values: Seq<S>, trans: Seq<S>) -> Seq<S> {
    Seq::new(
        16,
        |i: int|
            if 12 <= i < 15 {
                trans[i - 12]
            } else {
                values[i]
            },
    )
}

/// The entries `values` with the first three entries of each of the first
/// three columns multiplied by the factor of that column.
pub open spec fn scaled<S: Scalar>(values: Seq<S>, scale: Seq<S>) -> Seq<S> {
    Seq::new(
        16,
        |i: int|
            if i < 12 && i % 4 < 3 {
                S::product(values[i], scale[i / 4])
            } else {
                values[i]
            },
    )
}

/// The entries of the transposed matrix.
pub open spec fn transposed<S>(values: Seq<S>) -> Seq<S> {
    Seq::new(16, |i: int| values[4 * (i % 4) + i / 4])
}

impl<S: Scalar> Matrix4<S> {
    /// The 16 entries, column by column.
    pub fn as_ref(&self) -> (entries: &[S])
        ensures
            entries@ == self.values@,
    {
        self.values.as_slice()
    }

    /// The identity matrix.
    pub fn identity() -> (matrix: Matrix4<S>)
        ensures
            matrix.values@ == identity_values::<S>(),
    {
        let o = S::one();
        let z = S::zero();
        let values = [o, z, z, z, z, o, z, z, z, z, o, z, z, z, z, o];
        assert(values@ =~= identity_values::<S>());
        Matrix4 { values }
    }

    /// The matrix whose entries are those of `slice`, which must be 16.
    pub fn from_slice(slice: &[S]) -> (made: Result<Matrix4<S>, Matrix4CreationError>)
        ensures
            match made {
                Ok(matrix) => slice@.len() == 16 && matrix.values@ == slice@,
                Err(error) => slice@.len() != 16 && error.given() == slice@.len(),
            },
    {
        let len = slice.len();
        if len == 16 {
            let values = [
                slice[0],
                slice[1],
                slice[2],
                slice[3],
                slice[4],
                slice[5],
                slice[6],
                slice[7],
                slice[8],
                slice[9],
                slice[10],
                slice[11],
                slice[12],
                slice[13],
                slice[14],
                slice[15],
            ];
            assert(values@ =~= slice@);
            Ok(Matrix4 { values })
        } else {
            Err(Matrix4CreationError { given_array_size: len })
        }
    }

    /// The matrix with rows and columns swapped.
    pub fn transpose(&self) -> (matrix: Matrix4<S>)
        ensures
            matrix.values@ == transposed(self.values@),
    {
        let v = &self.values;
        let values = [
            v[0],
            v[4],
            v[8],
            v[12],
            v[1],
            v[5],
            v[9],
            v[13],
            v[2],
            v[6],
            v[10],
            v[14],
            v[3],
            v[7],
            v[11],
            v[15],
        ];
        assert(values@ =~= transposed(self.values@));
        Matrix4 { values }
    }

    /// The four entries of column `index`.
    pub fn get_column(&self, index: usize) -> (column: [S; 4])
        requires
            index < 4,
        ensures
            column@ == self.values@.subrange(4 * index, 4 * index + 4),
    {
        let column = index * 4;
        let out = [
            self.values[column],
            self.values[column + 1],
            self.values[column + 2],
            self.values[column + 3],
        ];
        assert(out@ =~= self.values@.subrange(4 * index, 4 * index + 4));
        out
    }

    /// The four entries of row `index`.
    pub fn get_row(&self, index: usize) -> (row: [S; 4])
        requires
            index < 4,
        ensures
            row@ == Seq::new(4, |k: int| self.values@[index + 4 * k]),
    {
        let out = [
            self.values[index],
            self.values[index + 4],
            self.values[index + 8],
            self.values[index + 12],
        ];
        assert(out@ =~= Seq::new(4, |k: int| self.values@[index + 4 * k]));
        out
    }

    /// Replaces the four entries of column `column`.
    pub fn set_column(&mut self, column: usize, value: [S; 4])
        requires
            column < 4,
        ensures
            final(self).values@ == with_column(old(self).values@, column as int, value@),
    {
        let column = column * 4;
        self.values[column] = value[0];
        self.values[column + 1] = value[1];
        self.values[column + 2] = value[2];
        self.values[column + 3] = value[3];
        assert(self.values@ =~= with_column(old(self).values@, column as int / 4, value@));
    }

    /// Replaces the translation: the first three entries of the last column.
    pub fn set_translation(&mut self, trans: [S; 3])
        ensures
            final(self).values@ == with_translation(old(self).values@, trans@),
    {
        self.values[12] = trans[0];
        self.values[13] = trans[1];
        self.values[14] = trans[2];
        assert(self.values@ =~= with_translation(old(self).values@, trans@));
    }

    /// Multiplies the first three entries of each of the first three columns
    /// by the factor of that column.
    pub fn scale(&mut self, scale: [S; 3])
        ensures
            final(self).values@ == scaled(old(self).values@, scale@),
    {
        let mut i: usize = 0;
        while i < 3
            invariant
                i <= 3,
                forall|k: int|
                    0 <= k < 16 ==> self.values@[k] == if k < 4 * i && k % 4 < 3 {
                        S::product(old(self).values@[k], scale@[k / 4])
                    } else {
                        old(self).values@[k]
                    },
            decreases 3 - i,
        {
            let start = i * 4;
            self.values[start] = self.values[start].times(scale[i]);
            self.values[start + 1] = self.values[start + 1].times(scale[i]);
            self.values[start + 2] = self.values[start + 2].times(scale[i]);
            i += 1;
        }
        assert(self.values@ =~= scaled(old(self).values@, scale@));
    }
}

/// The position that one `POSITION` attribute gives: its record must hold
/// three values, and the components `X`, `Y` and `Z` must be among its
/// first three component names.
pub open spec fn position_of<S>(attribute: AttributeModel<S>) -> Option<Vector3<S>> {
    match attribute.data {
        None => None,
        Some(data) => if data.len() != 3 {
            None
        } else {
            match (
                component(attribute.parameters, "X"@),
                component(attribute.parameters, "Y"@),
                component(attribute.parameters, "Z"@),
            ) {
                (Some(x), Some(y), Some(z)) => if x < 3 && y < 3 && z < 3 {
                    Some(Vector3 { x: data[x as int], y: data[y as int], z: data[z as int] })
                } else {
                    None
                },
                _ => None,
            }
        },
    }
}

/// The position among the attributes from position `from` on, given the
/// one found before; the outer `None` stands for a `POSITION` that comes
/// twice or gives no position.
pub open spec fn position_from<S>(
    attributes: Seq<AttributeModel<S>>,
    from: int,
    found: Option<Vector3<S>>,
) -> Option<Option<Vector3<S>>>
    decreases attributes.len() - from,
{
    if from < 0 || from >= attributes.len() {
        Some(found)
    } else if attributes[from].semantic != "POSITION"@ {
        position_from(attributes, from + 1, found)
    } else if found is Some {
        None
    } else {
        match position_of(attributes[from]) {
            None => None,
            Some(position) => position_from(attributes, from + 1, Some(position)),
        }
    }
}

/// A vertex that is its position: the attributes must hold `POSITION`
/// exactly once.
impl<S: Scalar> Vertex<S> for Vector3<S> {
    open spec fn build(attributes: Seq<AttributeModel<S>>) -> Option<Vector3<S>> {
        match position_from(attributes, 0, None) {
            Some(Some(position)) => Some(position),
            _ => None,
        }
    }

    fn from_attributes(attributes: &Vec<(&str, &[String], Option<&[S]>)>) -> (vertex: Option<
        Vector3<S>,
    >) {
        let ghost all = crate::collada::mesh::vertices::attributes_model(attributes@);
        let mut found: Option<Vector3<S>> = None;
        let mut i: usize = 0;
        while i < attributes.len()
            invariant
                i <= attributes@.len(),
                all == crate::collada::mesh::vertices::attributes_model(attributes@),
                position_from(all, 0, None) == position_from(all, i as int, found),
            decreases attributes@.len() - i,
        {
            let (name, param_names, data) = attributes[i];
            assert(all[i as int].semantic == name@);
            assert(all[i as int].parameters == texts(param_names@));
            if same_text(name, "POSITION") {
                if found.is_some() {
                    return None;
                }
                let data = match data {
                    Some(data) => data,
                    None => {
                        return None;
                    },
                };
                if data.len() != 3 {
                    return None;
                }
                match (
                    find_component(param_names, "X"),
                    find_component(param_names, "Y"),
                    find_component(param_names, "Z"),
                ) {
                    (Some(x), Some(y), Some(z)) => {
                        if x < 3 && y < 3 && z < 3 {
                            found = Some(Vector3 { x: data[x], y: data[y], z: data[z] });
                        } else {
                            return None;
                        }
                    },
                    _ => {
                        return None;
                    },
                }
            }
            i += 1;
        }
        found
    }
}

} // verus!
