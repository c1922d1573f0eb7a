//! What stands for a value in contracts is the value, field by field.

use crate::database::{SqlText, SqlValue};
use crate::export::ExportRow;
use crate::ffl::{FflRecord, FflVersion, SnapshotMeta};
use crate::joined::Rec;
use crate::labels::Label;
use crate::links::Links;
use crate::pdf::AfmerRow;
use vstd::prelude::*;

verus! {

/// What a report row holds are its fields.
pub proof fn law_report_row_is_its_fields(row: AfmerRow)
    ensures
        row@.rds_key == row.rds_key@,
        row@.app_lic_type == row.app_lic_type@,
        row@.app_license_name == row.app_license_name@,
        row@.app_premise_street == row.app_premise_street@,
        row@.app_premise_city == row.app_premise_city@,
        row@.app_premise_state == row.app_premise_state@,
        row@.counts == row.counts@,
        row.ffl_version_first_seen matches Some(s) ==> row@.ffl_version_first_seen == Some(s@),
        row.ffl_version_first_seen is None ==> row@.ffl_version_first_seen is None,
        row@.name_source == row.name_source,
{
}

/// What a joined record holds are its fields.
pub proof fn law_joined_record_is_its_fields(rec: Rec)
    ensures
        rec@.lic_type == rec.lic_type@,
        rec@.name == rec.name@,
        rec@.street == rec.street@,
        rec@.city == rec.city@,
        rec@.state == rec.state@,
        rec@.counts == rec.counts@,
        rec@.resolved == rec.resolved,
{
}

/// What a license record holds are its fields.
pub proof fn law_license_record_is_its_fields(r: FflRecord)
    ensures
        r@.lic_regn == r.lic_regn@,
        r@.lic_dist == r.lic_dist@,
        r@.lic_cnty == r.lic_cnty@,
        r@.lic_type == r.lic_type@,
        r@.lic_xprdte == r.lic_xprdte@,
        r@.lic_seqn == r.lic_seqn@,
        r@.license_name == r.license_name@,
        r@.business_name == r.business_name@,
        r@.premise_street == r.premise_street@,
        r@.premise_city == r.premise_city@,
        r@.premise_state == r.premise_state@,
        r@.premise_zip == r.premise_zip@,
        r@.mail_street == r.mail_street@,
        r@.mail_city == r.mail_city@,
        r@.mail_state == r.mail_state@,
        r@.mail_zip == r.mail_zip@,
        r@.voice_phone == r.voice_phone@,
{
}

/// What a version and the note of a snapshot hold are their fields.
pub proof fn law_version_is_its_fields(v: FflVersion, snap: SnapshotMeta)
    ensures
        v@.record == v.record@,
        v@.first_seen == v.first_seen@,
        v@.last_seen == v.last_seen@,
        v@.first_year == v.first_year,
        v@.last_year == v.last_year,
        v@.seq == v.seq,
        snap@.label == snap.label@,
        snap@.source_file == snap.source_file@,
        snap@.row_count == snap.row_count,
{
}

/// What a row of the export holds are its fields.
pub proof fn law_export_row_is_its_fields(row: ExportRow)
    ensures
        row@.year == row.year,
        row@.rds_key == row.rds_key@,
        row@.lic_type == row.lic_type@,
        row@.name == row.name@,
        row@.street == row.street@,
        row@.city == row.city@,
        row@.state == row.state@,
        row@.counts == row.counts@,
        row@.name_source == row.name_source@,
{
}

/// What labels, links and the values of a statement hold are their fields.
pub proof fn law_curated_values_are_their_fields(label: Label, links: Links, v: SqlValue, i: int)
    ensures
        label@.code == label.code@,
        label@.name == label.name@,
        label@.json == label.json@,
        links@.links.len() == links.links@.len(),
        links@.names.len() == links.names@.len(),
        0 <= i < links.links@.len() ==> links@.links[i].0 == links.links@[i].rds_key@
            && links@.links[i].1 == links.links@[i].group_id@,
        0 <= i < links.names@.len() ==> links@.names[i].0 == links.names@[i].group_id@
            && links@.names[i].1 == links.names@[i].name@,
        v is Null <==> v@ is Null,
        v matches SqlValue::Int(n) ==> v@ == SqlText::Int(n),
        v matches SqlValue::Text(s) ==> v@ == SqlText::Text(s@),
{
}

} // verus!
