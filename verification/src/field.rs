//! The fields of a signal: a name and a value of one of three kinds.

use vstd::prelude::*;

verus! {

/// A number as the payload holds it: a sign, a decimal mantissa and a power
/// of ten, or the marker for a value that is not a number.
///
/// `Finite { positive: true, mantissa: 314, exponent: -2 }` is 3.14.
#[derive(Clone, Copy, Debug, PartialEq, Eq, Structural)]
pub enum Number {
    Finite { positive: bool, mantissa: u64, exponent: i16 },
    NotANumber,
}

/// The parts of a number once the zeros at the end of its fraction are gone:
/// while the exponent is negative and the mantissa ends in zero, one zero is
/// dropped and the exponent raised by one.
pub open spec fn strip_trailing_zeros(mantissa: u64, exponent: i16) -> (u64, i16)
    decreases -(exponent as int),
{
    if exponent < 0 && mantissa % 10 == 0 {
        strip_trailing_zeros(mantissa / 10, (exponent + 1) as i16)
    } else {
        (mantissa, exponent)
    }
}

impl Number {
    /// The same number in the one form in which a payload stores it.
    pub open spec fn canonical(self) -> Number {
        match self {
            Number::Finite { positive, mantissa, exponent } => {
                let (m, e) = strip_trailing_zeros(mantissa, exponent);
                Number::Finite { positive, mantissa: m, exponent: e }
            },
            Number::NotANumber => Number::NotANumber,
        }
    }

    /// The number is in the form in which a payload stores it.
    pub open spec fn is_canonical(self) -> bool {
        self.canonical() == self
    }

    /// The canonical form of a number is canonical: storing it once more
    /// changes nothing.
    pub proof fn lemma_canonical_is_canonical(self)
        ensures
            self.canonical().is_canonical(),
    {
        if let Number::Finite { mantissa, exponent, .. } = self {
            lemma_strip_is_stable(mantissa, exponent);
        }
    }
}

/// Once the zeros are stripped, there is none left to strip.
pub proof fn lemma_strip_is_stable(mantissa: u64, exponent: i16)
    ensures
        ({
            let (m, e) = strip_trailing_zeros(mantissa, exponent);
            strip_trailing_zeros(m, e) == (m, e)
        }),
    decreases -(exponent as int),
{
    if exponent < 0 && mantissa % 10 == 0 {
        lemma_strip_is_stable(mantissa / 10, (exponent + 1) as i16);
    }
}

/// The value of one field.
#[derive(Clone, Debug, PartialEq, Eq)]
pub enum FieldValue {
    Float(Number),
    Boolean(bool),
    Text(String),
}

/// What a [`FieldValue`] stands for in contracts.
pub ghost enum ValueView {
    Float(Number),
    Boolean(bool),
    Text(Seq<char>),
}

impl ValueView {
    /// The value as a payload stores it: a number in its canonical form,
    /// anything else as it is.
    pub open spec fn canonical(self) -> ValueView {
        match self {
            ValueView::Float(number) => ValueView::Float(number.canonical()),
            other => other,
        }
    }

    /// The value is in the form in which a payload stores it.
    pub open spec fn is_canonical(self) -> bool {
        self.canonical() == self
    }
}

impl View for FieldValue {
    type V = ValueView;

    open spec fn view(&self) -> ValueView {
        match self {
            FieldValue::Float(number) => ValueView::Float(*number),
            FieldValue::Boolean(flag) => ValueView::Boolean(*flag),
            FieldValue::Text(text) => ValueView::Text(text@),
        }
    }
}

/// One named field of a signal.
#[derive(Clone, Debug, PartialEq, Eq)]
pub struct Field {
    pub name: String,
    pub value: FieldValue,
}

/// What a [`Field`] stands for in contracts.
pub ghost struct FieldView {
    pub name: Seq<char>,
    pub value: ValueView,
}

impl View for Field {
    type V = FieldView;

    open spec fn view(&self) -> FieldView {
        FieldView { name: self.name@, value: self.value@ }
    }
}

/// The views of a list of fields, in order.
pub open spec fn views(fields: Seq<Field>) -> Seq<FieldView> {
    fields.map_values(|field: Field| field@)
}

} // verus!
