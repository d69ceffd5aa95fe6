//! Reusable script components: hooks, bodies and calls to action that many
//! reels can share (and that record once).

use vstd::prelude::*;

use crate::db::{Param, Row, SqlValue, bool_cell, col_bool, col_int, col_opt_text, col_text, execute, flag, int_cell, opt_text, opt_text_cell, query, text, text_cell};
use crate::ids::{self, code_text};
use crate::json::{json_parse_string_list, json_string_list};
use crate::ranking::rank_order;
use crate::search;
use crate::text::{is_blank, join, lemma_views_push, trim, trimmed, views};
use crate::{CoreError, Result, invalid, invalid_with, not_found};

verus! {

/// A reusable component.
#[derive(Clone, Debug)]
pub struct Component {
    pub id: String,
    pub code: String,
    pub kind: String,
    pub text: String,
    pub tags: Vec<String>,
    pub pillar_id: Option<String>,
    pub archived: bool,
    pub created_at: String,
    /// How many script blocks reference this component.
    pub times_used: i64,
}

impl Component {
    /// A field-for-field copy.
    pub fn duplicate(&self) -> (r: Component)
        ensures
            r.id == self.id,
            r.code == self.code,
            r.kind == self.kind,
            r.text == self.text,
            views(r.tags@) == views(self.tags@),
            r.pillar_id == self.pillar_id,
            r.archived == self.archived,
            r.created_at == self.created_at,
            r.times_used == self.times_used,
    {
        Component {
            id: self.id.clone(),
            code: self.code.clone(),
            kind: self.kind.clone(),
            text: self.text.clone(),
            tags: copy_strings(self.tags.as_slice()),
            pillar_id: crate::reels::copy_opt(&self.pillar_id),
            archived: self.archived,
            created_at: self.created_at.clone(),
            times_used: self.times_used,
        }
    }
}

/// The code prefix of a component kind.
pub open spec fn code_prefix_spec(kind: Seq<char>) -> Option<Seq<char>> {
    if kind == "hook"@ {
        Some("HK"@)
    } else if kind == "body"@ {
        Some("BD"@)
    } else if kind == "cta"@ {
        Some("CT"@)
    } else {
        None
    }
}

/// The code prefix of a component kind: HK, BD or CT; any other kind is refused.
pub fn code_prefix(kind: &str) -> (r: Result<&'static str>)
    ensures
        r matches Ok(p) ==> code_prefix_spec(kind@) == Some(p@),
        r matches Err(e) ==> code_prefix_spec(kind@) is None && (e matches CoreError::Invalid(m)
            && m@ == "invalid component kind: "@ + kind@),
{
    if crate::text::str_eq(kind, "hook") {
        Ok("HK")
    } else if crate::text::str_eq(kind, "body") {
        Ok("BD")
    } else if crate::text::str_eq(kind, "cta") {
        Ok("CT")
    } else {
        Err(invalid_with("invalid component kind: ", kind))
    }
}

/// The indexed text of a component: its text, then its tags, space separated.
pub open spec fn fts_content_spec(text: Seq<char>, tags: Seq<Seq<char>>) -> Seq<char> {
    if tags.len() == 0 {
        text
    } else {
        text + seq![' '] + join(tags, seq![' '])
    }
}

/// The indexed text of a component: its text, then its tags, space separated.
pub fn fts_content(text: &str, tags: &[String]) -> (r: String)
    ensures
        r@ == fts_content_spec(text@, views(tags@)),
{
    if tags.len() == 0 {
        String::from_str(text)
    } else {
        let mut r = String::from_str(text);
        r.append(" ");
        let joined = crate::text::join_strings(tags, " ");
        r.append(joined.as_str());
        proof {
            reveal_strlit(" ");
            assert(" "@ =~= seq![' ']);
            assert(r@ =~= fts_content_spec(text@, views(tags@)));
        }
        r
    }
}

/// Create a component. Its text is required (stored trimmed), its kind must be
/// hook, body or cta, and it gets the next code of its kind (HK0001, …).
pub fn create(
    conn: &rusqlite::Connection,
    kind: &str,
    text_in: &str,
    tags: &[String],
    pillar_id: Option<&str>,
) -> (r: Result<Component>)
    ensures
        trim(text_in@).len() == 0 ==> (r matches Err(CoreError::Invalid(m)) && m@
            == "component text is required"@),
        trim(text_in@).len() != 0 && code_prefix_spec(kind@) is None ==> (r matches Err(
            CoreError::Invalid(m),
        ) && m@ == "invalid component kind: "@ + kind@),
        r matches Err(CoreError::Invalid(_)) ==> trim(text_in@).len() == 0 || code_prefix_spec(
            kind@,
        ) is None,
        r matches Ok(c) ==> {
            &&& c.kind@ == kind@
            &&& c.text@ == trim(text_in@)
            &&& views(c.tags@) == views(tags@)
            &&& (c.pillar_id is None <==> pillar_id is None)
            &&& (pillar_id matches Some(p) ==> c.pillar_id->0@ == p@)
            &&& !c.archived
            &&& c.times_used == 0
            &&& exists|v: i64| c.code@ == code_text(code_prefix_spec(kind@)->0, v as int, 4)
        },
{
    if is_blank(text_in) {
        return Err(invalid("component text is required"));
    }
    let prefix = code_prefix(kind)?;
    let code = ids::next_code(conn, prefix, 4)?;
    proof {
        let v = choose|v: i64| code@ == code_text(prefix@, v as int, 4);
        assert(code@ == code_text(code_prefix_spec(kind@)->0, v as int, 4));
    }
    let tags_copy = copy_strings(tags);
    let component = Component {
        id: ids::new_id(),
        code,
        kind: String::from_str(kind),
        text: trimmed(text_in),
        tags: tags_copy,
        pillar_id: match pillar_id {
            Some(p) => Some(String::from_str(p)),
            None => None,
        },
        archived: false,
        created_at: ids::now_iso(),
        times_used: 0,
    };
    execute(
        conn,
        "INSERT INTO components (id, code, kind, text, tags, pillar_id, created_at)
         VALUES (?1, ?2, ?3, ?4, ?5, ?6, ?7)",
        &vec![
            text(component.id.as_str()),
            text(component.code.as_str()),
            text(component.kind.as_str()),
            text(component.text.as_str()),
            Param::Text(json_string_list(&component.tags)),
            opt_text(pillar_id),
            text(component.created_at.as_str()),
        ],
    )?;
    let content = fts_content(component.text.as_str(), &component.tags);
    search::upsert(conn, "component", component.id.as_str(), content.as_str())?;
    Ok(component)
}

/// A copy of a list of strings.
pub fn copy_strings(v: &[String]) -> (r: Vec<String>)
    ensures
        views(r@) == views(v@),
{
    let mut r: Vec<String> = Vec::new();
    let mut i: usize = 0;
    while i < v.len()
        invariant
            i <= v.len(),
            views(r@) == views(v@).take(i as int),
        decreases v.len() - i,
    {
        let ghost old_r = r@;
        r.push(String::from_str(v[i].as_str()));
        proof {
            lemma_views_push(old_r, r@);
        }
        i += 1;
        assert(views(r@) =~= views(v@).take(i as int));
    }
    assert(views(v@).take(v.len() as int) =~= views(v@));
    r
}

/// The parameters of a component's update: text, tags as a JSON list,
/// pillar, id.
pub fn component_update_write(id: &str, text_v: &str, tags: &[String], pillar_id: Option<&str>) -> (p: Vec<Param>)
    ensures
        crate::db::params_view(p@) == seq![
            crate::db::ParamView::Text(text_v@),
            crate::db::ParamView::Text(crate::json::string_list_json(views(tags@))),
            crate::db::opt_text_view(crate::text::opt_view_str(pillar_id)),
            crate::db::ParamView::Text(id@),
        ],
{
    let p = vec![text(text_v), Param::Text(json_string_list(tags)), opt_text(pillar_id), text(id)];
    assert(crate::db::params_view(p@) =~= seq![
        crate::db::ParamView::Text(text_v@),
        crate::db::ParamView::Text(crate::json::string_list_json(views(tags@))),
        crate::db::opt_text_view(crate::text::opt_view_str(pillar_id)),
        crate::db::ParamView::Text(id@),
    ]);
    p
}

/// Replace a component's text (required, stored trimmed), tags and pillar,
/// and re-index it.
pub fn update(
    conn: &rusqlite::Connection,
    id: &str,
    text_in: &str,
    tags: &[String],
    pillar_id: Option<&str>,
) -> (r: Result<()>)
    ensures
        trim(text_in@).len() == 0 ==> (r matches Err(CoreError::Invalid(m)) && m@
            == "component text is required"@),
        r matches Err(CoreError::Invalid(_)) ==> trim(text_in@).len() == 0,
{
    if is_blank(text_in) {
        return Err(invalid("component text is required"));
    }
    let t = trimmed(text_in);
    let changed = execute(
        conn,
        "UPDATE components SET text = ?1, tags = ?2, pillar_id = ?3 WHERE id = ?4",
        &component_update_write(id, t.as_str(), tags, pillar_id),
    )?;
    if changed == 0 {
        return Err(not_found("component ", id));
    }
    let content = fts_content(t.as_str(), tags);
    search::upsert(conn, "component", id, content.as_str())?;
    Ok(())
}

/// Archive or restore a component.
pub fn set_archived(conn: &rusqlite::Connection, id: &str, archived: bool) -> (r: Result<()>)
    ensures
        !(r matches Err(CoreError::Invalid(_))),
{
    let changed = execute(
        conn,
        "UPDATE components SET archived = ?1 WHERE id = ?2",
        &crate::db::flag_write(archived, id),
    )?;
    if changed == 0 {
        return Err(not_found("component ", id));
    }
    Ok(())
}

/// A row decodes as a component: every column has the expected type.
pub open spec fn component_row_ok(row: Seq<SqlValue>) -> bool {
    &&& text_cell(row, 0) is Some
    &&& text_cell(row, 1) is Some
    &&& text_cell(row, 2) is Some
    &&& text_cell(row, 3) is Some
    &&& text_cell(row, 4) is Some
    &&& opt_text_cell(row, 5) is Some
    &&& bool_cell(row, 6) is Some
    &&& text_cell(row, 7) is Some
    &&& int_cell(row, 8) is Some
}

/// `x` is a component decoded from `row`, column by column.
pub open spec fn component_of_row(x: Component, row: Seq<SqlValue>) -> bool {
    &&& text_cell(row, 0) == Some(x.id@)
    &&& text_cell(row, 1) == Some(x.code@)
    &&& text_cell(row, 2) == Some(x.kind@)
    &&& text_cell(row, 3) == Some(x.text@)
    &&& crate::text::views(x.tags@) == crate::json::string_list_of_json(text_cell(row, 4)->0)
    &&& opt_text_cell(row, 5) == Some(crate::text::opt_view(x.pillar_id))
    &&& bool_cell(row, 6) == Some(x.archived)
    &&& text_cell(row, 7) == Some(x.created_at@)
    &&& int_cell(row, 8) == Some(x.times_used)
}

/// `x` was decoded from some row.
pub open spec fn component_decoded(x: Component) -> bool {
    exists|row: Seq<SqlValue>| component_of_row(x, row)
}

/// Decode a component from a result row.
pub fn row_to_component(r: &Row) -> (c: Result<Component>)
    ensures
        c matches Err(e) ==> e is Sqlite,
        c is Ok <==> component_row_ok(r@),
        c matches Ok(x) ==> component_of_row(x, r@),
{
    let tags = col_text(r, 4)?;
    Ok(Component {
        id: col_text(r, 0)?,
        code: col_text(r, 1)?,
        kind: col_text(r, 2)?,
        text: col_text(r, 3)?,
        tags: json_parse_string_list(tags.as_str()),
        pillar_id: col_opt_text(r, 5)?,
        archived: col_bool(r, 6)?,
        created_at: col_text(r, 7)?,
        times_used: col_int(r, 8)?,
    })
}

/// Components, newest first, with usage counts; archived ones only when asked
/// for, one kind only when given. A non-blank search query keeps only the
/// matches, best match first.
pub fn list(
    conn: &rusqlite::Connection,
    kind: Option<&str>,
    include_archived: bool,
    query_text: Option<&str>,
) -> (r: Result<Vec<Component>>)
    ensures
        r matches Ok(v) ==> forall|k: int| 0 <= k < v.len() ==> component_decoded(#[trigger] v@[k]),
        r matches Err(e) ==> e is Sqlite,
{
    let match_ids: Option<Vec<String>> = match query_text {
        Some(q) => {
            if !is_blank(q) {
                Some(search::matching_ids(conn, "component", q)?)
            } else {
                None
            }
        },
        None => None,
    };
    let rows = query(
        conn,
        "SELECT c.id, c.code, c.kind, c.text, c.tags, c.pillar_id, c.archived, c.created_at,
                (SELECT COUNT(*) FROM script_blocks sb WHERE sb.component_id = c.id)
         FROM components c
         WHERE (c.archived = 0 OR ?1) AND (?2 IS NULL OR c.kind = ?2)
         ORDER BY c.created_at DESC",
        &vec![flag(include_archived), opt_text(kind)],
    )?;
    let mut all: Vec<Component> = Vec::new();
    let mut i: usize = 0;
    while i < rows.len()
        invariant
            i <= rows.len(),
            forall|k: int| 0 <= k < all.len() ==> component_decoded(#[trigger] all@[k]),
        decreases rows.len() - i,
    {
        let x = row_to_component(&rows[i])?;
        assert(component_of_row(x, rows@[i as int]@));
        all.push(x);
        i += 1;
    }
    match match_ids {
        Some(ranked) => {
            let mut ids: Vec<String> = Vec::new();
            let mut k: usize = 0;
            while k < all.len()
                invariant
                    k <= all.len(),
                    ids.len() == k,
                decreases all.len() - k,
            {
                ids.push(String::from_str(all[k].id.as_str()));
                k += 1;
            }
            let order = rank_order(&ids, &ranked);
            let mut out: Vec<Component> = Vec::new();
            let mut q: usize = 0;
            while q < order.len()
                invariant
                    q <= order.len(),
                    ids.len() == all.len(),
                    forall|k: int| 0 <= k < order.len() ==> order@[k] < ids.len(),
                    forall|k: int| 0 <= k < all.len() ==> component_decoded(#[trigger] all@[k]),
                    forall|k: int| 0 <= k < out.len() ==> component_decoded(#[trigger] out@[k]),
                decreases order.len() - q,
            {
                let c = all[order[q]].duplicate();
                proof {
                    let src = all@[order@[q as int] as int];
                    assert(component_decoded(src));
                    let row = choose|row: Seq<SqlValue>| component_of_row(src, row);
                    assert(component_of_row(c, row));
                }
                out.push(c);
                q += 1;
            }
            Ok(out)
        },
        None => Ok(all),
    }
}

} // verus!
