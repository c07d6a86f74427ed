//! The entries of the standard dictionary: attributes of the standard's registry
//! of data elements, and the attributes of the file meta information.

use vstd::prelude::*;
use crate::dictionary::DictionaryEntryRef;
use crate::header::{Tag, VR};
use crate::tag_range::TagRange;

verus! {

/// The entry of an attribute with a single tag.
pub open spec fn spec_single(group: u16, element: u16, alias: &'static str, vr: VR) -> DictionaryEntryRef<
    'static,
> {
    DictionaryEntryRef { tag: TagRange::Single(Tag(group, element)), alias, vr }
}

/// The entry of an attribute with a single tag.
pub fn single(group: u16, element: u16, alias: &'static str, vr: VR) -> (entry: DictionaryEntryRef<
    'static,
>)
    ensures
        entry == spec_single(group, element, alias, vr),
{
    DictionaryEntryRef { tag: TagRange::Single(Tag(group, element)), alias, vr }
}

/// Attributes that identify an object and say when it was made.
pub open spec fn spec_identification_entries() -> Seq<DictionaryEntryRef<'static>> {
    seq![
        spec_single(0x0008, 0x0005, "SpecificCharacterSet", VR::CS),
        spec_single(0x0008, 0x0008, "ImageType", VR::CS),
        spec_single(0x0008, 0x0016, "SOPClassUID", VR::UI),
        spec_single(0x0008, 0x0018, "SOPInstanceUID", VR::UI),
        spec_single(0x0008, 0x0020, "StudyDate", VR::DA),
        spec_single(0x0008, 0x0021, "SeriesDate", VR::DA),
        spec_single(0x0008, 0x0022, "AcquisitionDate", VR::DA),
        spec_single(0x0008, 0x0023, "ContentDate", VR::DA),
        spec_single(0x0008, 0x0030, "StudyTime", VR::TM),
        spec_single(0x0008, 0x0031, "SeriesTime", VR::TM),
        spec_single(0x0008, 0x0032, "AcquisitionTime", VR::TM),
        spec_single(0x0008, 0x0033, "ContentTime", VR::TM),
    ]
}

/// Attributes of the study, the series and the equipment.
pub open spec fn spec_equipment_entries() -> Seq<DictionaryEntryRef<'static>> {
    seq![
        spec_single(0x0008, 0x0050, "AccessionNumber", VR::SH),
        spec_single(0x0008, 0x0060, "Modality", VR::CS),
        spec_single(0x0008, 0x0070, "Manufacturer", VR::LO),
        spec_single(0x0008, 0x0080, "InstitutionName", VR::LO),
        spec_single(0x0008, 0x0090, "ReferringPhysicianName", VR::PN),
        spec_single(0x0008, 0x1030, "StudyDescription", VR::LO),
        spec_single(0x0008, 0x103E, "SeriesDescription", VR::LO),
        spec_single(0x0008, 0x1090, "ManufacturerModelName", VR::LO),
    ]
}

/// Attributes of the patient.
pub open spec fn spec_patient_entries() -> Seq<DictionaryEntryRef<'static>> {
    seq![
        spec_single(0x0010, 0x0010, "PatientName", VR::PN),
        spec_single(0x0010, 0x0020, "PatientID", VR::LO),
        spec_single(0x0010, 0x0030, "PatientBirthDate", VR::DA),
        spec_single(0x0010, 0x0040, "PatientSex", VR::CS),
        spec_single(0x0010, 0x1010, "PatientAge", VR::AS),
        spec_single(0x0010, 0x1030, "PatientWeight", VR::DS),
    ]
}

/// Attributes of the acquisition.
pub open spec fn spec_acquisition_entries() -> Seq<DictionaryEntryRef<'static>> {
    seq![
        spec_single(0x0018, 0x0015, "BodyPartExamined", VR::CS),
        spec_single(0x0018, 0x0050, "SliceThickness", VR::DS),
        spec_single(0x0018, 0x0060, "KVP", VR::DS),
        spec_single(0x0018, 0x1020, "SoftwareVersions", VR::LO),
        spec_single(0x0018, 0x5100, "PatientPosition", VR::CS),
    ]
}

/// Attributes that relate an object to its study, series and frame of reference.
pub open spec fn spec_relationship_entries() -> Seq<DictionaryEntryRef<'static>> {
    seq![
        spec_single(0x0020, 0x000D, "StudyInstanceUID", VR::UI),
        spec_single(0x0020, 0x000E, "SeriesInstanceUID", VR::UI),
        spec_single(0x0020, 0x0010, "StudyID", VR::SH),
        spec_single(0x0020, 0x0011, "SeriesNumber", VR::IS),
        spec_single(0x0020, 0x0012, "AcquisitionNumber", VR::IS),
        spec_single(0x0020, 0x0013, "InstanceNumber", VR::IS),
        spec_single(0x0020, 0x0032, "ImagePositionPatient", VR::DS),
        spec_single(0x0020, 0x0037, "ImageOrientationPatient", VR::DS),
        spec_single(0x0020, 0x0052, "FrameOfReferenceUID", VR::UI),
        spec_single(0x0020, 0x1041, "SliceLocation", VR::DS),
    ]
}

/// Attributes of the image's pixels.
pub open spec fn spec_image_entries() -> Seq<DictionaryEntryRef<'static>> {
    seq![
        spec_single(0x0028, 0x0002, "SamplesPerPixel", VR::US),
        spec_single(0x0028, 0x0004, "PhotometricInterpretation", VR::CS),
        spec_single(0x0028, 0x0006, "PlanarConfiguration", VR::US),
        spec_single(0x0028, 0x0008, "NumberOfFrames", VR::IS),
        spec_single(0x0028, 0x0010, "Rows", VR::US),
        spec_single(0x0028, 0x0011, "Columns", VR::US),
        spec_single(0x0028, 0x0030, "PixelSpacing", VR::DS),
        spec_single(0x0028, 0x0100, "BitsAllocated", VR::US),
        spec_single(0x0028, 0x0101, "BitsStored", VR::US),
        spec_single(0x0028, 0x0102, "HighBit", VR::US),
        spec_single(0x0028, 0x0103, "PixelRepresentation", VR::US),
    ]
}

/// Attributes of the image's presentation, and the pixel data.
pub open spec fn spec_presentation_entries() -> Seq<DictionaryEntryRef<'static>> {
    seq![
        spec_single(0x0028, 0x1050, "WindowCenter", VR::DS),
        spec_single(0x0028, 0x1051, "WindowWidth", VR::DS),
        spec_single(0x0028, 0x1052, "RescaleIntercept", VR::DS),
        spec_single(0x0028, 0x1053, "RescaleSlope", VR::DS),
        spec_single(0x7FE0, 0x0010, "PixelData", VR::OB),
    ]
}

/// Attributes of the standard's registry of data elements, in the registry's order.
pub open spec fn spec_standard_entries() -> Seq<DictionaryEntryRef<'static>> {
    spec_identification_entries()
        + spec_equipment_entries()
        + spec_patient_entries()
        + spec_acquisition_entries()
        + spec_relationship_entries()
        + spec_image_entries()
        + spec_presentation_entries()
}

/// The attributes of the file meta information.
pub open spec fn spec_meta_entries() -> Seq<DictionaryEntryRef<'static>> {
    seq![
        spec_single(0x0002, 0x0000, "FileMetaInformationGroupLength", VR::UL),
        spec_single(0x0002, 0x0001, "FileMetaInformationVersion", VR::OB),
        spec_single(0x0002, 0x0002, "MediaStorageSOPClassUID", VR::UI),
        spec_single(0x0002, 0x0003, "MediaStorageSOPInstanceUID", VR::UI),
        spec_single(0x0002, 0x0010, "TransferSyntaxUID", VR::UI),
        spec_single(0x0002, 0x0012, "ImplementationClassUID", VR::UI),
        spec_single(0x0002, 0x0013, "ImplentationVersionName", VR::SH),
        spec_single(0x0002, 0x0016, "SourceApplicationEntityTitle", VR::AE),
        spec_single(0x0002, 0x0017, "SendingApplicationEntityTitle", VR::AE),
        spec_single(0x0002, 0x0018, "ReceivingApplicationEntityTitle", VR::AE),
        spec_single(0x0002, 0x0100, "PrivateInformationCreatorUID", VR::UI),
        spec_single(0x0002, 0x0102, "PrivateInformation", VR::OB),
    ]
}

/// Attributes that identify an object and say when it was made.
pub fn identification_entries() -> (entries: Vec<DictionaryEntryRef<'static>>)
    ensures
        entries@ == spec_identification_entries(),
{
    let mut entries: Vec<DictionaryEntryRef<'static>> = Vec::new();
    entries.push(single(0x0008, 0x0005, "SpecificCharacterSet", VR::CS));
    entries.push(single(0x0008, 0x0008, "ImageType", VR::CS));
    entries.push(single(0x0008, 0x0016, "SOPClassUID", VR::UI));
    entries.push(single(0x0008, 0x0018, "SOPInstanceUID", VR::UI));
    entries.push(single(0x0008, 0x0020, "StudyDate", VR::DA));
    entries.push(single(0x0008, 0x0021, "SeriesDate", VR::DA));
    entries.push(single(0x0008, 0x0022, "AcquisitionDate", VR::DA));
    entries.push(single(0x0008, 0x0023, "ContentDate", VR::DA));
    entries.push(single(0x0008, 0x0030, "StudyTime", VR::TM));
    entries.push(single(0x0008, 0x0031, "SeriesTime", VR::TM));
    entries.push(single(0x0008, 0x0032, "AcquisitionTime", VR::TM));
    entries.push(single(0x0008, 0x0033, "ContentTime", VR::TM));
    assert(entries@ =~= spec_identification_entries());
    entries
}

/// Attributes of the study, the series and the equipment.
pub fn equipment_entries() -> (entries: Vec<DictionaryEntryRef<'static>>)
    ensures
        entries@ == spec_equipment_entries(),
{
    let mut entries: Vec<DictionaryEntryRef<'static>> = Vec::new();
    entries.push(single(0x0008, 0x0050, "AccessionNumber", VR::SH));
    entries.push(single(0x0008, 0x0060, "Modality", VR::CS));
    entries.push(single(0x0008, 0x0070, "Manufacturer", VR::LO));
    entries.push(single(0x0008, 0x0080, "InstitutionName", VR::LO));
    entries.push(single(0x0008, 0x0090, "ReferringPhysicianName", VR::PN));
    entries.push(single(0x0008, 0x1030, "StudyDescription", VR::LO));
    entries.push(single(0x0008, 0x103E, "SeriesDescription", VR::LO));
    entries.push(single(0x0008, 0x1090, "ManufacturerModelName", VR::LO));
    assert(entries@ =~= spec_equipment_entries());
    entries
}

/// Attributes of the patient.
pub fn patient_entries() -> (entries: Vec<DictionaryEntryRef<'static>>)
    ensures
        entries@ == spec_patient_entries(),
{
    let mut entries: Vec<DictionaryEntryRef<'static>> = Vec::new();
    entries.push(single(0x0010, 0x0010, "PatientName", VR::PN));
    entries.push(single(0x0010, 0x0020, "PatientID", VR::LO));
    entries.push(single(0x0010, 0x0030, "PatientBirthDate", VR::DA));
    entries.push(single(0x0010, 0x0040, "PatientSex", VR::CS));
    entries.push(single(0x0010, 0x1010, "PatientAge", VR::AS));
    entries.push(single(0x0010, 0x1030, "PatientWeight", VR::DS));
    assert(entries@ =~= spec_patient_entries());
    entries
}

/// Attributes of the acquisition.
pub fn acquisition_entries() -> (entries: Vec<DictionaryEntryRef<'static>>)
    ensures
        entries@ == spec_acquisition_entries(),
{
    let mut entries: Vec<DictionaryEntryRef<'static>> = Vec::new();
    entries.push(single(0x0018, 0x0015, "BodyPartExamined", VR::CS));
    entries.push(single(0x0018, 0x0050, "SliceThickness", VR::DS));
    entries.push(single(0x0018, 0x0060, "KVP", VR::DS));
    entries.push(single(0x0018, 0x1020, "SoftwareVersions", VR::LO));
    entries.push(single(0x0018, 0x5100, "PatientPosition", VR::CS));
    assert(entries@ =~= spec_acquisition_entries());
    entries
}

/// Attributes that relate an object to its study, series and frame of reference.
pub fn relationship_entries() -> (entries: Vec<DictionaryEntryRef<'static>>)
    ensures
        entries@ == spec_relationship_entries(),
{
    let mut entries: Vec<DictionaryEntryRef<'static>> = Vec::new();
    entries.push(single(0x0020, 0x000D, "StudyInstanceUID", VR::UI));
    entries.push(single(0x0020, 0x000E, "SeriesInstanceUID", VR::UI));
    entries.push(single(0x0020, 0x0010, "StudyID", VR::SH));
    entries.push(single(0x0020, 0x0011, "SeriesNumber", VR::IS));
    entries.push(single(0x0020, 0x0012, "AcquisitionNumber", VR::IS));
    entries.push(single(0x0020, 0x0013, "InstanceNumber", VR::IS));
    entries.push(single(0x0020, 0x0032, "ImagePositionPatient", VR::DS));
    entries.push(single(0x0020, 0x0037, "ImageOrientationPatient", VR::DS));
    entries.push(single(0x0020, 0x0052, "FrameOfReferenceUID", VR::UI));
    entries.push(single(0x0020, 0x1041, "SliceLocation", VR::DS));
    assert(entries@ =~= spec_relationship_entries());
    entries
}

/// Attributes of the image's pixels.
pub fn image_entries() -> (entries: Vec<DictionaryEntryRef<'static>>)
    ensures
        entries@ == spec_image_entries(),
{
    let mut entries: Vec<DictionaryEntryRef<'static>> = Vec::new();
    entries.push(single(0x0028, 0x0002, "SamplesPerPixel", VR::US));
    entries.push(single(0x0028, 0x0004, "PhotometricInterpretation", VR::CS));
    entries.push(single(0x0028, 0x0006, "PlanarConfiguration", VR::US));
    entries.push(single(0x0028, 0x0008, "NumberOfFrames", VR::IS));
    entries.push(single(0x0028, 0x0010, "Rows", VR::US));
    entries.push(single(0x0028, 0x0011, "Columns", VR::US));
    entries.push(single(0x0028, 0x0030, "PixelSpacing", VR::DS));
    entries.push(single(0x0028, 0x0100, "BitsAllocated", VR::US));
    entries.push(single(0x0028, 0x0101, "BitsStored", VR::US));
    entries.push(single(0x0028, 0x0102, "HighBit", VR::US));
    entries.push(single(0x0028, 0x0103, "PixelRepresentation", VR::US));
    assert(entries@ =~= spec_image_entries());
    entries
}

/// Attributes of the image's presentation, and the pixel data.
pub fn presentation_entries() -> (entries: Vec<DictionaryEntryRef<'static>>)
    ensures
        entries@ == spec_presentation_entries(),
{
    let mut entries: Vec<DictionaryEntryRef<'static>> = Vec::new();
    entries.push(single(0x0028, 0x1050, "WindowCenter", VR::DS));
    entries.push(single(0x0028, 0x1051, "WindowWidth", VR::DS));
    entries.push(single(0x0028, 0x1052, "RescaleIntercept", VR::DS));
    entries.push(single(0x0028, 0x1053, "RescaleSlope", VR::DS));
    entries.push(single(0x7FE0, 0x0010, "PixelData", VR::OB));
    assert(entries@ =~= spec_presentation_entries());
    entries
}

/// Attributes of the standard's registry of data elements, in the registry's order.
pub fn standard_entries() -> (entries: Vec<DictionaryEntryRef<'static>>)
    ensures
        entries@ == spec_standard_entries(),
{
    let mut entries = identification_entries();
    let mut more = equipment_entries();
    entries.append(&mut more);
    let mut more = patient_entries();
    entries.append(&mut more);
    let mut more = acquisition_entries();
    entries.append(&mut more);
    let mut more = relationship_entries();
    entries.append(&mut more);
    let mut more = image_entries();
    entries.append(&mut more);
    let mut more = presentation_entries();
    entries.append(&mut more);
    entries
}

/// The attributes of the file meta information.
pub fn meta_entries() -> (entries: Vec<DictionaryEntryRef<'static>>)
    ensures
        entries@ == spec_meta_entries(),
{
    let mut entries: Vec<DictionaryEntryRef<'static>> = Vec::new();
    entries.push(single(0x0002, 0x0000, "FileMetaInformationGroupLength", VR::UL));
    entries.push(single(0x0002, 0x0001, "FileMetaInformationVersion", VR::OB));
    entries.push(single(0x0002, 0x0002, "MediaStorageSOPClassUID", VR::UI));
    entries.push(single(0x0002, 0x0003, "MediaStorageSOPInstanceUID", VR::UI));
    entries.push(single(0x0002, 0x0010, "TransferSyntaxUID", VR::UI));
    entries.push(single(0x0002, 0x0012, "ImplementationClassUID", VR::UI));
    entries.push(single(0x0002, 0x0013, "ImplentationVersionName", VR::SH));
    entries.push(single(0x0002, 0x0016, "SourceApplicationEntityTitle", VR::AE));
    entries.push(single(0x0002, 0x0017, "SendingApplicationEntityTitle", VR::AE));
    entries.push(single(0x0002, 0x0018, "ReceivingApplicationEntityTitle", VR::AE));
    entries.push(single(0x0002, 0x0100, "PrivateInformationCreatorUID", VR::UI));
    entries.push(single(0x0002, 0x0102, "PrivateInformation", VR::OB));
    assert(entries@ =~= spec_meta_entries());
    entries
}

} // verus!
