//! The six mineral quantities.

use crate::error::{result_model, ErrorModel, ParsingError};
use crate::guid::Guid;
use crate::property::{Document, DocumentModel, FloatLeaf};
use crate::registry::{BISMOR, CROPPA, ENOR_PEARL, JADIZ, MAGNITE, UMANITE};
use crate::resources::{
    get_owned_resources, get_resources, guids_model, owned_resources, resource_values,
};
use vstd::prelude::*;

verus! {

/// The six mineral quantities of a document.
#[derive(Debug, Clone, Copy, Default, PartialEq, Eq, Structural)]
pub struct Minerals {
    pub magnite: FloatLeaf,
    pub bismor: FloatLeaf,
    pub croppa: FloatLeaf,
    pub umanite: FloatLeaf,
    pub jadiz: FloatLeaf,
    pub enor_pearl: FloatLeaf,
}

/// The name of one mineral quantity.
#[derive(Debug, Clone, Copy, PartialEq, Eq, Structural)]
pub enum Mineral {
    Magnite,
    Bismor,
    Croppa,
    Umanite,
    Jadiz,
    EnorPearl,
}

impl View for Minerals {
    type V = Minerals;

    open spec fn view(&self) -> Minerals {
        *self
    }
}

impl Minerals {
    /// The identifiers under which the minerals are held, in the order in
    /// which they are read and written.
    pub open spec fn guids() -> Seq<Guid> {
        seq![MAGNITE, BISMOR, CROPPA, UMANITE, JADIZ, ENOR_PEARL]
    }

    /// The quantities in the order of [`Self::guids`].
    pub open spec fn values(self) -> Seq<FloatLeaf> {
        seq![self.magnite, self.bismor, self.croppa, self.umanite, self.jadiz, self.enor_pearl]
    }

    /// The minerals of a document: its resource inventory resolved, then each
    /// mineral looked up in it. The first failure is the result.
    pub open spec fn read(doc: DocumentModel) -> Result<Minerals, ErrorModel> {
        match owned_resources(doc) {
            Err(e) => Err(e),
            Ok(index) => match resource_values(index, guids_model(Self::guids())) {
                Err(e) => Err(e),
                Ok(values) => Ok(
                    Minerals {
                        magnite: values[0],
                        bismor: values[1],
                        croppa: values[2],
                        umanite: values[3],
                        jadiz: values[4],
                        enor_pearl: values[5],
                    },
                ),
            },
        }
    }

    /// The quantity called `field`.
    pub open spec fn get_spec(self, field: Mineral) -> FloatLeaf {
        match field {
            Mineral::Magnite => self.magnite,
            Mineral::Bismor => self.bismor,
            Mineral::Croppa => self.croppa,
            Mineral::Umanite => self.umanite,
            Mineral::Jadiz => self.jadiz,
            Mineral::EnorPearl => self.enor_pearl,
        }
    }

    /// These quantities with the one called `field` replaced by `value`.
    pub open spec fn set_spec(self, field: Mineral, value: FloatLeaf) -> Minerals {
        match field {
            Mineral::Magnite => Minerals { magnite: value, ..self },
            Mineral::Bismor => Minerals { bismor: value, ..self },
            Mineral::Croppa => Minerals { croppa: value, ..self },
            Mineral::Umanite => Minerals { umanite: value, ..self },
            Mineral::Jadiz => Minerals { jadiz: value, ..self },
            Mineral::EnorPearl => Minerals { enor_pearl: value, ..self },
        }
    }

    /// Reads the minerals of a document.
    pub fn from_gvas(doc: &Document) -> (r: Result<Self, ParsingError>)
        ensures
            result_model(r) == Self::read(doc@),
    {
        let owned_resources = get_owned_resources(doc)?;
        let guids: [Guid; 6] = [MAGNITE, BISMOR, CROPPA, UMANITE, JADIZ, ENOR_PEARL];
        assert(guids@ =~= Self::guids());
        let values = get_resources(&owned_resources, guids.as_slice())?;
        Ok(
            Minerals {
                magnite: values[0],
                bismor: values[1],
                croppa: values[2],
                umanite: values[3],
                jadiz: values[4],
                enor_pearl: values[5],
            },
        )
    }

    /// The quantity called `field`.
    pub fn get(&self, field: Mineral) -> (value: FloatLeaf)
        ensures
            value == self.get_spec(field),
    {
        match field {
            Mineral::Magnite => self.magnite,
            Mineral::Bismor => self.bismor,
            Mineral::Croppa => self.croppa,
            Mineral::Umanite => self.umanite,
            Mineral::Jadiz => self.jadiz,
            Mineral::EnorPearl => self.enor_pearl,
        }
    }

    /// Replaces the quantity called `field` by `value`.
    pub fn set(&mut self, field: Mineral, value: FloatLeaf)
        ensures
            *final(self) == old(self).set_spec(field, value),
    {
        match field {
            Mineral::Magnite => self.magnite = value,
            Mineral::Bismor => self.bismor = value,
            Mineral::Croppa => self.croppa = value,
            Mineral::Umanite => self.umanite = value,
            Mineral::Jadiz => self.jadiz = value,
            Mineral::EnorPearl => self.enor_pearl = value,
        }
    }
}

} // verus!
