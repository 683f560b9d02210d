//! One reply per operation: the five operations every resource offers,
//! stated over the table they touch and the envelope they answer with.
//!
//! The status codes mirror the route table: 200 for a hit, 201 for a
//! creation, 404 for a fetch of an absent row, 400 for an unusable date
//! filter, 500 when a write fails.  Deleting an absent row is not an
//! error: it answers 200 with zero affected rows.

use crate::calendar;
use crate::envelope::ErrorResponse;
use crate::envelope::SuccessResponse;
use crate::models::Reservation;
use crate::models::ReservationPayload;
use crate::schedule;
use crate::table::Row;
use crate::table::Table;
use vstd::prelude::*;
use vstd::string::StringExecFns;

verus! {

/// The message of every missing-row reply: the resource's name followed by
/// " not found".
fn not_found_message(resource: &str) -> (m: String)
    ensures
        m@ == resource@ + " not found"@,
{
    let mut m = resource.to_owned();
    m.append(" not found");
    m
}

/// List a resource: every row of its table, oldest first, under 200.
pub fn list_reply<'a, P>(table: &'a Table<P>) -> (r: SuccessResponse<&'a Vec<Row<P>>>)
    ensures
        r.status == 200,
        r.message@ == "OK"@,
        r.data@ == table.entries(),
{
    SuccessResponse { status: 200, message: "OK".to_owned(), data: table.all() }
}

/// Fetch one row: the row under 200 when the identifier is present, and a
/// 404 naming the resource — never a server error — when it is not.
pub fn show_reply<'a, P>(table: &'a Table<P>, id: u128, resource: &str) -> (r: Result<
    SuccessResponse<&'a Row<P>>,
    ErrorResponse,
>)
    ensures
        r is Ok <==> table.model().dom().contains(id),
        r matches Ok(s) ==> s.status == 200 && s.message@ == "OK"@ && *s.data == table.model()[id],
        r matches Err(e) ==> e.status == 404 && e.message@ == resource@ + " not found"@,
{
    match table.find(id) {
        Some(row) => Ok(SuccessResponse { status: 200, message: "OK".to_owned(), data: row }),
        None => Err(ErrorResponse { status: 404, message: not_found_message(resource) }),
    }
}

/// Create a row from client data: under 201, the identifier of a fresh row
/// whose two timestamps agree and whose client fields are the payload.  The
/// write fails, leaving the table unchanged and answering 500, only when
/// the drawn identifier was already taken.
pub fn create_reply<P>(table: &mut Table<P>, data: P) -> (r: Result<
    SuccessResponse<u128>,
    ErrorResponse,
>)
    ensures
        r matches Ok(s) ==> s.status == 201 && s.message@ == "Created"@ && ({
            let row = final(table).model()[s.data];
            &&& !old(table).model().dom().contains(s.data)
            &&& row.id == s.data
            &&& row.data == data
            &&& row.created_at == row.updated_at
            &&& final(table).model() == old(table).model().insert(s.data, row)
            &&& final(table).entries() == old(table).entries().push(row)
        }),
        r matches Err(e) ==> e.status == 500 && e.message@ == "Internal Server Error"@ && *final(table) == *old(table),
{
    match table.create(data) {
        Some(id) => Ok(SuccessResponse { status: 201, message: "Created".to_owned(), data: id }),
        None => Err(
            ErrorResponse { status: 500, message: "Internal Server Error".to_owned() },
        ),
    }
}

/// Replace the row under `id` wholesale: every client field becomes the
/// payload, the creation timestamp and the identifier stay, other rows are
/// untouched.  Answers the identifier under 200; on an absent row the
/// write fails flatly with 500, as every failing write does.
pub fn update_reply<P>(table: &mut Table<P>, id: u128, data: P) -> (r: Result<
    SuccessResponse<u128>,
    ErrorResponse,
>)
    ensures
        r is Ok <==> old(table).model().dom().contains(id),
        final(table).entries().len() == old(table).entries().len(),
        forall|j: int|
            0 <= j < old(table).entries().len() && old(table).entries()[j].id != id ==> final(table).entries()[j] == old(table).entries()[j],
        r matches Ok(s) ==> s.status == 200 && s.message@ == "OK"@ && s.data == id && ({
            let row = final(table).model()[id];
            &&& row.id == id
            &&& row.data == data
            &&& row.created_at == old(table).model()[id].created_at
            &&& final(table).model() == old(table).model().insert(id, row)
        }),
        r matches Err(e) ==> e.status == 500 && e.message@ == "Internal Server Error"@ && *final(table) == *old(table),
{
    if table.update(id, data) {
        Ok(SuccessResponse { status: 200, message: "OK".to_owned(), data: id })
    } else {
        Err(ErrorResponse { status: 500, message: "Internal Server Error".to_owned() })
    }
}

/// Delete the row under `id`: always 200, answering how many rows went —
/// one when the row existed, zero (and no crash, no error) when it did not.
pub fn destroy_reply<P>(table: &mut Table<P>, id: u128) -> (r: SuccessResponse<usize>)
    ensures
        r.status == 200,
        r.message@ == "Deleted"@,
        r.data <= 1,
        (r.data == 1) <==> old(table).model().dom().contains(id),
        final(table).model() == old(table).model().remove(id),
        r.data == 1 ==> (exists|j: int|
            0 <= j < old(table).entries().len() && old(table).entries()[j].id == id && final(table).entries() == old(table).entries().remove(j)),
        r.data == 0 ==> *final(table) == *old(table),
{
    let n = table.delete(id);
    SuccessResponse { status: 200, message: "Deleted".to_owned(), data: n }
}

/// A fresh copy of a row listing.
fn copy_rows(rows: &Vec<Reservation>) -> (out: Vec<Reservation>)
    ensures
        out@ == rows@,
{
    let n = rows.len();
    let mut out: Vec<Reservation> = Vec::new();
    let mut k: usize = 0;
    while k < n
        invariant
            n == rows@.len(),
            k <= n,
            out@ == rows@.take(k as int),
        decreases n - k,
    {
        out.push(rows[k]);
        proof {
            assert(rows@.take(k as int + 1) =~= rows@.take(k as int).push(rows@[k as int]));
        }
        k = k + 1;
    }
    proof {
        assert(rows@.take(n as int) =~= rows@);
    }
    out
}

/// List reservations, optionally restricted to one day.  Without a date:
/// every reservation, oldest first, under 200.  With a date that spells an
/// existing calendar day: that day's page — its reservations by ascending
/// start, capped at the ten earliest — under 200.  With anything else as
/// the date: a 400, never a silent fall-back to the full listing.
pub fn reservation_list_reply(table: &Table<ReservationPayload>, date: Option<&str>) -> (r: Result<
    SuccessResponse<Vec<Reservation>>,
    ErrorResponse,
>)
    ensures
        date is None ==> (r matches Ok(s) && s.status == 200 && s.message@ == "OK"@ && s.data@
            == table.entries()),
        date matches Some(d) ==> ({
            if !calendar::valid_date_chars(d@) {
                r matches Err(e) && e.status == 400 && e.message@ == "Bad Request"@
            } else {
                r matches Ok(s) && s.status == 200 && s.message@ == "OK"@ && ({
                    let lo = calendar::day_start_seconds(
                        calendar::year_of(d@),
                        calendar::month_of(d@),
                        calendar::day_of(d@),
                    );
                    schedule::day_page(table.entries(), lo, lo + 86399, s.data@)
                })
            }
        }),
{
    match date {
        None => Ok(
            SuccessResponse { status: 200, message: "OK".to_owned(), data: copy_rows(table.all()) },
        ),
        Some(d) => match calendar::day_bounds(d) {
            None => Err(ErrorResponse { status: 400, message: "Bad Request".to_owned() }),
            Some((lo, hi)) => Ok(
                SuccessResponse {
                    status: 200,
                    message: "OK".to_owned(),
                    data: schedule::reservations_on_day(table.all(), lo, hi),
                },
            ),
        },
    }
}

} // verus!
