use vstd::prelude::*;

verus! {

/// Error kinds reported by the recognition engine through its status code.
#[derive(Debug, Clone, Copy, PartialEq, Eq, Structural)]
pub enum AnprError {
    /// The input image was empty or null.
    ImageEmpty,
    /// The plate-type number is unsupported for this configuration.
    ErrorTypePlate,
    /// The image colour depth conflicts with the plate type's colour path.
    ErrorTypeForColor,
    /// Any other non-zero status (1: no candidates, 2: no plates decoded).
    Other(i32),
}

/// The meaning of an engine status code: `Ok` for zero, the error kind otherwise.
pub open spec fn status_meaning(code: i32) -> Result<(), AnprError> {
    if code == 0 {
        Ok(())
    } else if code == -2 {
        Err(AnprError::ImageEmpty)
    } else if code == -100 {
        Err(AnprError::ErrorTypePlate)
    } else if code == -101 {
        Err(AnprError::ErrorTypeForColor)
    } else {
        Err(AnprError::Other(code))
    }
}

/// The human-readable text of each error kind.
pub open spec fn description_text(e: AnprError) -> Seq<char> {
    match e {
        AnprError::ImageEmpty => "IMAGE_EMPTY: The image is empty."@,
        AnprError::ErrorTypePlate => "ERROR_TYPE_PLATE: Unsupported plate type for this configuration."@,
        AnprError::ErrorTypeForColor => "ERROR_TYPE_FOR_COLOR: Mismatch between image type and plate type flag in ANPR_OPTIONS."@,
        AnprError::Other(code) => if code == 1 {
            "No candidates detected for the license plate."@
        } else if code == 2 {
            "No license plates found."@
        } else {
            "Unknown error."@
        },
    }
}

impl AnprError {
    /// Maps an engine status code onto the error taxonomy.
    pub fn from_code(code: i32) -> (r: Result<(), AnprError>)
        ensures
            r == status_meaning(code),
    {
        match code {
            0 => Ok(()),
            1 => Err(AnprError::Other(1)),
            2 => Err(AnprError::Other(2)),
            -2 => Err(AnprError::ImageEmpty),
            -100 => Err(AnprError::ErrorTypePlate),
            -101 => Err(AnprError::ErrorTypeForColor),
            _ => Err(AnprError::Other(code)),
        }
    }

    /// The human-readable description of this error.
    pub fn description(&self) -> (r: &'static str)
        ensures
            r@ == description_text(*self),
    {
        match self {
            AnprError::ImageEmpty => "IMAGE_EMPTY: The image is empty.",
            AnprError::ErrorTypePlate => "ERROR_TYPE_PLATE: Unsupported plate type for this configuration.",
            AnprError::ErrorTypeForColor => "ERROR_TYPE_FOR_COLOR: Mismatch between image type and plate type flag in ANPR_OPTIONS.",
            AnprError::Other(code) => if *code == 1 {
                "No candidates detected for the license plate."
            } else if *code == 2 {
                "No license plates found."
            } else {
                "Unknown error."
            },
        }
    }
}

} // verus!
