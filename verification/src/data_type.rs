//! The kinds of data that a database holds for its models, and how a kind is
//! stored: as its name and a list of argument bytes.

use vstd::prelude::*;

use crate::text::str_equals;

verus! {

/// The kinds of data objects, without their arguments.
#[derive(Clone, Copy, Debug, PartialEq, Eq, Structural, Hash)]
pub enum DataTypeDiscriminants {
    Neuroscope,
    NeuronExplainer,
    Neuron2Graph,
    NeuronStore,
    Json,
}

/// A kind of data object with its arguments. The neuron store's similarity
/// threshold is an `f32`; it is held here as its bit pattern
/// (`f32::to_bits`).
#[derive(Clone, Copy, Debug, PartialEq, Eq, Structural)]
pub enum DataType {
    Neuroscope,
    NeuronExplainer,
    Neuron2Graph,
    NeuronStore { similarity_threshold_bits: u32 },
    Json,
}

/// Why a stored data type could not be read back.
#[derive(Clone, Debug, PartialEq, Eq)]
pub enum DataTypeError {
    /// The stored name is not that of a data type; it is given.
    UnexpectedDataType(String),
    /// The data type takes no arguments, but some were stored.
    UnexpectedArguments(DataTypeDiscriminants),
    /// A neuron store takes exactly four argument bytes.
    WrongArgumentLength(DataTypeDiscriminants),
}

/// The name of a kind of data object.
pub open spec fn discriminant_name(d: DataTypeDiscriminants) -> Seq<char> {
    match d {
        DataTypeDiscriminants::Neuroscope => "Neuroscope"@,
        DataTypeDiscriminants::NeuronExplainer => "NeuronExplainer"@,
        DataTypeDiscriminants::Neuron2Graph => "Neuron2Graph"@,
        DataTypeDiscriminants::NeuronStore => "NeuronStore"@,
        DataTypeDiscriminants::Json => "Json"@,
    }
}

/// The kind of a data type.
pub open spec fn discriminant_of(t: DataType) -> DataTypeDiscriminants {
    match t {
        DataType::Neuroscope => DataTypeDiscriminants::Neuroscope,
        DataType::NeuronExplainer => DataTypeDiscriminants::NeuronExplainer,
        DataType::Neuron2Graph => DataTypeDiscriminants::Neuron2Graph,
        DataType::NeuronStore { .. } => DataTypeDiscriminants::NeuronStore,
        DataType::Json => DataTypeDiscriminants::Json,
    }
}

/// The kind whose name is `s`, if any.
pub open spec fn discriminant_named(s: Seq<char>) -> Option<DataTypeDiscriminants> {
    if s == "Neuroscope"@ {
        Some(DataTypeDiscriminants::Neuroscope)
    } else if s == "NeuronExplainer"@ {
        Some(DataTypeDiscriminants::NeuronExplainer)
    } else if s == "Neuron2Graph"@ {
        Some(DataTypeDiscriminants::Neuron2Graph)
    } else if s == "NeuronStore"@ {
        Some(DataTypeDiscriminants::NeuronStore)
    } else if s == "Json"@ {
        Some(DataTypeDiscriminants::Json)
    } else {
        None
    }
}

/// The number that four bytes hold, least significant first.
pub open spec fn le_u32(b: Seq<u8>) -> u32 {
    (b[0] as int + b[1] as int * 0x100 + b[2] as int * 0x1_0000 + b[3] as int * 0x100_0000) as u32
}

/// The four bytes of `v`, least significant first.
pub open spec fn le_bytes(v: u32) -> Seq<u8> {
    seq![
        (v % 0x100) as u8,
        ((v / 0x100) % 0x100) as u8,
        ((v / 0x1_0000) % 0x100) as u8,
        (v / 0x100_0000) as u8,
    ]
}

/// The stored argument bytes of a data type.
pub open spec fn data_type_args(t: DataType) -> Seq<u8> {
    match t {
        DataType::NeuronStore { similarity_threshold_bits } => le_bytes(similarity_threshold_bits),
        _ => Seq::empty(),
    }
}

/// What reading a data type back from its stored name and arguments gives;
/// errors are given by kind.
pub open spec fn data_type_from_raw(name: Seq<char>, args: Seq<u8>) -> Result<DataType, ()> {
    match discriminant_named(name) {
        None => Err(()),
        Some(DataTypeDiscriminants::NeuronStore) => if args.len() == 4 {
            Ok(DataType::NeuronStore { similarity_threshold_bits: le_u32(args) })
        } else {
            Err(())
        },
        Some(d) => if args.len() == 0 {
            Ok(
                match d {
                    DataTypeDiscriminants::Neuroscope => DataType::Neuroscope,
                    DataTypeDiscriminants::NeuronExplainer => DataType::NeuronExplainer,
                    DataTypeDiscriminants::Neuron2Graph => DataType::Neuron2Graph,
                    _ => DataType::Json,
                },
            )
        } else {
            Err(())
        },
    }
}

impl DataTypeDiscriminants {
    /// The kind's name, as it is stored.
    pub fn as_str(&self) -> (r: &'static str)
        ensures
            r@ == discriminant_name(*self),
    {
        match self {
            DataTypeDiscriminants::Neuroscope => "Neuroscope",
            DataTypeDiscriminants::NeuronExplainer => "NeuronExplainer",
            DataTypeDiscriminants::Neuron2Graph => "Neuron2Graph",
            DataTypeDiscriminants::NeuronStore => "NeuronStore",
            DataTypeDiscriminants::Json => "Json",
        }
    }

    /// The kind with the given name, if there is one.
    pub fn from_name(name: &str) -> (r: Option<Self>)
        ensures
            r == discriminant_named(name@),
    {
        if str_equals(name, "Neuroscope") {
            Some(DataTypeDiscriminants::Neuroscope)
        } else if str_equals(name, "NeuronExplainer") {
            Some(DataTypeDiscriminants::NeuronExplainer)
        } else if str_equals(name, "Neuron2Graph") {
            Some(DataTypeDiscriminants::Neuron2Graph)
        } else if str_equals(name, "NeuronStore") {
            Some(DataTypeDiscriminants::NeuronStore)
        } else if str_equals(name, "Json") {
            Some(DataTypeDiscriminants::Json)
        } else {
            None
        }
    }
}

impl DataType {
    /// The kind of this data type.
    pub fn discriminant(&self) -> (r: DataTypeDiscriminants)
        ensures
            r == discriminant_of(*self),
    {
        match self {
            DataType::Neuroscope => DataTypeDiscriminants::Neuroscope,
            DataType::NeuronExplainer => DataTypeDiscriminants::NeuronExplainer,
            DataType::Neuron2Graph => DataTypeDiscriminants::Neuron2Graph,
            DataType::NeuronStore { .. } => DataTypeDiscriminants::NeuronStore,
            DataType::Json => DataTypeDiscriminants::Json,
        }
    }

    /// The name under which the data type is stored.
    pub fn as_str(&self) -> (r: &'static str)
        ensures
            r@ == discriminant_name(discriminant_of(*self)),
    {
        self.discriminant().as_str()
    }

    /// Reads a data type back from its stored name and argument bytes.
    pub fn from_raw(data_type: &str, type_args: &[u8]) -> (r: Result<Self, DataTypeError>)
        ensures
            r is Ok <==> data_type_from_raw(data_type@, type_args@) is Ok,
            r matches Ok(t) ==> data_type_from_raw(data_type@, type_args@) == Ok::<DataType, ()>(t),
            r matches Err(DataTypeError::UnexpectedDataType(name)) ==> name@ == data_type@
                && discriminant_named(data_type@) is None,
            r matches Err(DataTypeError::UnexpectedArguments(d)) ==> discriminant_named(data_type@)
                == Some(d) && d != DataTypeDiscriminants::NeuronStore && type_args@.len() != 0,
            r matches Err(DataTypeError::WrongArgumentLength(d)) ==> discriminant_named(data_type@)
                == Some(d) && d == DataTypeDiscriminants::NeuronStore && type_args@.len() != 4,
    {
        let kind = match DataTypeDiscriminants::from_name(data_type) {
            Some(kind) => kind,
            None => return Err(DataTypeError::UnexpectedDataType(data_type.to_owned())),
        };
        match kind {
            DataTypeDiscriminants::NeuronStore => {
                if type_args.len() != 4 {
                    return Err(DataTypeError::WrongArgumentLength(kind));
                }
                let bits = type_args[0] as u32 + type_args[1] as u32 * 0x100 + type_args[2] as u32
                    * 0x1_0000 + type_args[3] as u32 * 0x100_0000;
                Ok(DataType::NeuronStore { similarity_threshold_bits: bits })
            },
            _ => {
                if type_args.len() != 0 {
                    return Err(DataTypeError::UnexpectedArguments(kind));
                }
                Ok(
                    match kind {
                        DataTypeDiscriminants::Neuroscope => DataType::Neuroscope,
                        DataTypeDiscriminants::NeuronExplainer => DataType::NeuronExplainer,
                        DataTypeDiscriminants::Neuron2Graph => DataType::Neuron2Graph,
                        _ => DataType::Json,
                    },
                )
            },
        }
    }

    /// The argument bytes under which the data type is stored: none, or the
    /// neuron store's threshold as four bytes, least significant first.
    pub fn args(&self) -> (r: Vec<u8>)
        ensures
            r@ == data_type_args(*self),
    {
        match self {
            DataType::NeuronStore { similarity_threshold_bits } => {
                let v = *similarity_threshold_bits;
                let mut r: Vec<u8> = Vec::new();
                r.push((v % 0x100) as u8);
                r.push(((v / 0x100) % 0x100) as u8);
                r.push(((v / 0x1_0000) % 0x100) as u8);
                r.push((v / 0x100_0000) as u8);
                assert(r@ =~= le_bytes(v));
                r
            },
            _ => Vec::new(),
        }
    }
}

/// Four bytes, least significant first, give back the number they were cut from.
pub proof fn lemma_le_bytes_roundtrip(v: u32)
    ensures
        le_u32(le_bytes(v)) == v,
{
    let b0 = v % 0x100;
    let b1 = (v / 0x100) % 0x100;
    let b2 = (v / 0x1_0000) % 0x100;
    let b3 = v / 0x100_0000;
    assert(b0 + b1 * 0x100 + b2 * 0x1_0000 + b3 * 0x100_0000 == v) by (bit_vector)
        requires
            b0 == v % 0x100,
            b1 == (v / 0x100) % 0x100,
            b2 == (v / 0x1_0000) % 0x100,
            b3 == v / 0x100_0000,
    ;
    let b = le_bytes(v);
    assert(b[0] as int == b0 && b[1] as int == b1 && b[2] as int == b2 && b[3] as int == b3);
}

/// A data type read back from the name and arguments under which it is
/// stored is the same data type.
pub proof fn law_data_type_roundtrip(t: DataType)
    ensures
        data_type_from_raw(discriminant_name(discriminant_of(t)), data_type_args(t)) == Ok::<
            DataType,
            (),
        >(t),
{
    reveal_strlit("Neuroscope");
    reveal_strlit("NeuronExplainer");
    reveal_strlit("Neuron2Graph");
    reveal_strlit("NeuronStore");
    reveal_strlit("Json");
    assert("Neuroscope"@.len() == 10);
    assert("NeuronExplainer"@.len() == 15);
    assert("Neuron2Graph"@.len() == 12);
    assert("NeuronStore"@.len() == 11);
    assert("Json"@.len() == 4);
    if let DataType::NeuronStore { similarity_threshold_bits: v } = t {
        lemma_le_bytes_roundtrip(v);
    }
}

} // verus!
