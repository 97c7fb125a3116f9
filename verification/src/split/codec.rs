use crate::split::json::{
    json_array, json_array_items, json_bool, json_bool_payload, json_bytes, json_doc,
    json_is_null, json_object, json_object_fields, json_string, json_string_payload, obj_found,
    obj_fresh, obj_inserted, obj_removed, object_insert, object_remove, object_with_capacity,
    value_from_slice, value_into_array, value_into_bool, value_into_object, value_into_string,
    value_is_null, value_of_array, value_of_bool, value_of_object, value_of_string,
    value_to_bytes,
};
use crate::split::model::{
    direct_views, file_views, post_views, string_views, Direct, DirectModel, File, FileModel,
    PostModel, SlackPost,
};
use vstd::prelude::*;
use vstd::string::*;

verus! {

// The reading and rendering of the typed records are stated as spec
// functions over the names of src/split/json.rs, step for step as the
// executable code takes the documents apart and puts them together, so
// that every codec function below carries an exact contract.
/// One boolean field taken out of an object: its payload, false when the
/// field is absent, nothing when it is present with the wrong shape.
pub open spec fn spec_bool_field(
    fields: serde_json::Map<String, serde_json::Value>,
    key: Seq<char>,
) -> Option<bool> {
    match obj_found(fields, key) {
        None => Some(false),
        Some(v) => json_bool_payload(v),
    }
}

/// One string field taken out of an object: its payload, empty when the
/// field is absent, nothing when it is present with the wrong shape.
pub open spec fn spec_string_field(
    fields: serde_json::Map<String, serde_json::Value>,
    key: Seq<char>,
) -> Option<Seq<char>> {
    match obj_found(fields, key) {
        None => Some(Seq::empty()),
        Some(v) => json_string_payload(v),
    }
}

/// What reading one attachment object yields: the five typed fields taken
/// out in order, everything else left behind as the extra bag.
pub open spec fn spec_file_from_value(v: serde_json::Value) -> Option<FileModel> {
    match json_object_fields(v) {
        None => None,
        Some(f0) => {
            let f1 = obj_removed(f0, "is_external"@);
            let f2 = obj_removed(f1, "id"@);
            let f3 = obj_removed(f2, "name"@);
            let f4 = obj_removed(f3, "url_private"@);
            let f5 = obj_removed(f4, "url_private_download"@);
            match (
                spec_bool_field(f0, "is_external"@),
                spec_string_field(f1, "id"@),
                spec_string_field(f2, "name"@),
                spec_string_field(f3, "url_private"@),
                spec_string_field(f4, "url_private_download"@),
            ) {
                (
                    Some(is_external),
                    Some(id),
                    Some(name),
                    Some(url_private),
                    Some(url_private_download),
                ) => Some(
                    FileModel {
                        extra: f5,
                        is_external,
                        id,
                        name,
                        url_private,
                        url_private_download,
                    },
                ),
                _ => None,
            }
        },
    }
}

/// What reading a whole attachment array yields: every element as an
/// attachment, or nothing as soon as one fails.
pub open spec fn spec_files_from_items(items: Seq<serde_json::Value>) -> Option<Seq<FileModel>>
    decreases items.len(),
{
    if items.len() == 0 {
        Some(Seq::empty())
    } else {
        match spec_file_from_value(items[0]) {
            None => None,
            Some(f) => match spec_files_from_items(items.drop_first()) {
                None => None,
                Some(rest) => Some(seq![f] + rest),
            },
        }
    }
}

/// What reading one post object yields: upload flag, legacy file (null
/// counting as absent), attachment list, and the remaining fields as the
/// extra bag.
pub open spec fn spec_post_from_value(v: serde_json::Value) -> Option<PostModel> {
    match json_object_fields(v) {
        None => None,
        Some(f0) => {
            let upload_v = obj_found(f0, "upload"@);
            let f1 = obj_removed(f0, "upload"@);
            let file_v = obj_found(f1, "file"@);
            let f2 = obj_removed(f1, "file"@);
            let files_v = obj_found(f2, "files"@);
            let f3 = obj_removed(f2, "files"@);
            let upload = match upload_v {
                None => Some(false),
                Some(b) => json_bool_payload(b),
            };
            let file = match file_v {
                None => Some(None),
                Some(fv) => if json_is_null(fv) {
                    Some(None)
                } else {
                    match spec_file_from_value(fv) {
                        None => None,
                        Some(f) => Some(Some(f)),
                    }
                },
            };
            let files = match files_v {
                None => Some(Seq::<FileModel>::empty()),
                Some(av) => match json_array_items(av) {
                    None => None,
                    Some(items) => spec_files_from_items(items),
                },
            };
            match (upload, file, files) {
                (Some(upload), Some(file), Some(files)) => Some(
                    PostModel { extra: f3, upload, file, files },
                ),
                _ => None,
            }
        },
    }
}

/// What reading a whole post array yields.
pub open spec fn spec_posts_from_items(items: Seq<serde_json::Value>) -> Option<Seq<PostModel>>
    decreases items.len(),
{
    if items.len() == 0 {
        Some(Seq::empty())
    } else {
        match spec_post_from_value(items[0]) {
            None => None,
            Some(p) => match spec_posts_from_items(items.drop_first()) {
                None => None,
                Some(rest) => Some(seq![p] + rest),
            },
        }
    }
}

/// What a whole entry's bytes read as: a JSON document that is an array
/// of well-formed posts — or nothing, in which case the entry passes
/// through the rewrite untouched.
pub open spec fn spec_parse_posts(bytes: Seq<u8>) -> Option<Seq<PostModel>> {
    match json_doc(bytes) {
        None => None,
        Some(v) => match json_array_items(v) {
            None => None,
            Some(items) => spec_posts_from_items(items),
        },
    }
}

/// The object one attachment renders as: its extra bag with the five
/// typed fields written over it, in order.
pub open spec fn spec_file_value(f: FileModel) -> serde_json::Value {
    let f0 = obj_inserted(f.extra, "is_external"@, json_bool(f.is_external));
    let f1 = obj_inserted(f0, "id"@, json_string(f.id));
    let f2 = obj_inserted(f1, "name"@, json_string(f.name));
    let f3 = obj_inserted(f2, "url_private"@, json_string(f.url_private));
    let f4 = obj_inserted(f3, "url_private_download"@, json_string(f.url_private_download));
    json_object(f4)
}

pub open spec fn spec_file_items(files: Seq<FileModel>) -> Seq<serde_json::Value> {
    files.map_values(|f: FileModel| spec_file_value(f))
}

/// The object one post renders as: its extra bag, the upload flag, the
/// legacy file only when it is still present, and the attachment array.
pub open spec fn spec_post_value(p: PostModel) -> serde_json::Value {
    let f0 = obj_inserted(p.extra, "upload"@, json_bool(p.upload));
    let f1 = match p.file {
        Some(f) => obj_inserted(f0, "file"@, spec_file_value(f)),
        None => f0,
    };
    let f2 = obj_inserted(f1, "files"@, json_array(spec_file_items(p.files)));
    json_object(f2)
}

pub open spec fn spec_post_items(posts: Seq<PostModel>) -> Seq<serde_json::Value> {
    posts.map_values(|p: PostModel| spec_post_value(p))
}

/// The JSON text a whole post array renders as.
pub open spec fn spec_render_posts(posts: Seq<PostModel>) -> Seq<u8> {
    json_bytes(json_array(spec_post_items(posts)))
}

/// What reading one direct-message record yields: `id` and `members` are
/// required, unknown fields are ignored.
pub open spec fn spec_direct_from_value(v: serde_json::Value) -> Option<DirectModel> {
    match json_object_fields(v) {
        None => None,
        Some(f0) => {
            let id_v = obj_found(f0, "id"@);
            let f1 = obj_removed(f0, "id"@);
            let members_v = obj_found(f1, "members"@);
            match id_v {
                None => None,
                Some(idv) => match json_string_payload(idv) {
                    None => None,
                    Some(id) => match members_v {
                        None => None,
                        Some(mv) => match json_array_items(mv) {
                            None => None,
                            Some(items) => match spec_strings_from_items(items) {
                                None => None,
                                Some(members) => Some(DirectModel { id, members }),
                            },
                        },
                    },
                },
            }
        },
    }
}

/// What reading an array of strings yields.
pub open spec fn spec_strings_from_items(items: Seq<serde_json::Value>) -> Option<Seq<Seq<char>>>
    decreases items.len(),
{
    if items.len() == 0 {
        Some(Seq::empty())
    } else {
        match json_string_payload(items[0]) {
            None => None,
            Some(s) => match spec_strings_from_items(items.drop_first()) {
                None => None,
                Some(rest) => Some(seq![s] + rest),
            },
        }
    }
}

/// What reading a whole DM directory yields.
pub open spec fn spec_directs_from_items(items: Seq<serde_json::Value>) -> Option<Seq<DirectModel>>
    decreases items.len(),
{
    if items.len() == 0 {
        Some(Seq::empty())
    } else {
        match spec_direct_from_value(items[0]) {
            None => None,
            Some(d) => match spec_directs_from_items(items.drop_first()) {
                None => None,
                Some(rest) => Some(seq![d] + rest),
            },
        }
    }
}

pub open spec fn spec_parse_directs(bytes: Seq<u8>) -> Option<Seq<DirectModel>> {
    match json_doc(bytes) {
        None => None,
        Some(v) => match json_array_items(v) {
            None => None,
            Some(items) => spec_directs_from_items(items),
        },
    }
}

pub open spec fn spec_member_items(members: Seq<Seq<char>>) -> Seq<serde_json::Value> {
    members.map_values(|s: Seq<char>| json_string(s))
}

/// The object one direct-message record renders as: a fresh object with
/// exactly its two fields.
pub open spec fn spec_direct_value(d: DirectModel) -> serde_json::Value {
    let f0 = obj_fresh(2);
    let f1 = obj_inserted(f0, "id"@, json_string(d.id));
    let f2 = obj_inserted(f1, "members"@, json_array(spec_member_items(d.members)));
    json_object(f2)
}

pub open spec fn spec_direct_items(directs: Seq<DirectModel>) -> Seq<serde_json::Value> {
    directs.map_values(|d: DirectModel| spec_direct_value(d))
}

/// The JSON text a DM directory renders as.
pub open spec fn spec_render_directs(directs: Seq<DirectModel>) -> Seq<u8> {
    json_bytes(json_array(spec_direct_items(directs)))
}

/// Reads one attachment object, as `spec_file_from_value` says: typed
/// fields out of the map — absent ones fall back to their defaults — and
/// every other field stays behind in `extra`. `None` exactly when the
/// value is not an object or a typed field has the wrong shape, which
/// fails the parse of the whole entry.
pub fn file_from_value(v: serde_json::Value) -> (r: Option<File>)
    ensures
        match r {
            Some(f) => spec_file_from_value(v) == Some(f@),
            None => spec_file_from_value(v) is None,
        },
{
    let mut obj = match value_into_object(v) {
        Ok(fields) => fields,
        Err(_) => {
            return None;
        },
    };
    let is_external = match object_remove(&mut obj, "is_external") {
        Some(b) => match value_into_bool(b) {
            Some(x) => x,
            None => {
                return None;
            },
        },
        None => false,
    };
    let id = match object_remove(&mut obj, "id") {
        Some(s) => match value_into_string(s) {
            Some(x) => x,
            None => {
                return None;
            },
        },
        None => String::new(),
    };
    let name = match object_remove(&mut obj, "name") {
        Some(s) => match value_into_string(s) {
            Some(x) => x,
            None => {
                return None;
            },
        },
        None => String::new(),
    };
    let url_private = match object_remove(&mut obj, "url_private") {
        Some(s) => match value_into_string(s) {
            Some(x) => x,
            None => {
                return None;
            },
        },
        None => String::new(),
    };
    let url_private_download = match object_remove(&mut obj, "url_private_download") {
        Some(s) => match value_into_string(s) {
            Some(x) => x,
            None => {
                return None;
            },
        },
        None => String::new(),
    };
    Some(File { extra: obj, is_external, id, name, url_private, url_private_download })
}

/// Renders one attachment back into a JSON object, as `spec_file_value`
/// says.
pub fn file_to_value(f: File) -> (r: serde_json::Value)
    ensures
        r == spec_file_value(f@),
{
    let File { extra, is_external, id, name, url_private, url_private_download } = f;
    let mut obj = extra;
    let _old = object_insert(&mut obj, "is_external", value_of_bool(is_external));
    let _old = object_insert(&mut obj, "id", value_of_string(id));
    let _old = object_insert(&mut obj, "name", value_of_string(name));
    let _old = object_insert(&mut obj, "url_private", value_of_string(url_private));
    let _old = object_insert(&mut obj, "url_private_download", value_of_string(url_private_download));
    value_of_object(obj)
}

/// Reads one post object, as `spec_post_from_value` says. A `file` field
/// holding JSON null is an absent legacy attachment, not an error.
pub fn post_from_value(v: serde_json::Value) -> (r: Option<SlackPost>)
    ensures
        match r {
            Some(p) => spec_post_from_value(v) == Some(p@),
            None => spec_post_from_value(v) is None,
        },
{
    let mut obj = match value_into_object(v) {
        Ok(fields) => fields,
        Err(_) => {
            return None;
        },
    };
    let upload = match object_remove(&mut obj, "upload") {
        Some(b) => match value_into_bool(b) {
            Some(x) => x,
            None => {
                return None;
            },
        },
        None => false,
    };
    let file = match object_remove(&mut obj, "file") {
        Some(fv) => {
            if value_is_null(&fv) {
                None
            } else {
                match file_from_value(fv) {
                    Some(f) => Some(f),
                    None => {
                        return None;
                    },
                }
            }
        },
        None => None,
    };
    let files = match object_remove(&mut obj, "files") {
        Some(fv) => {
            let arr = match value_into_array(fv) {
                Ok(items) => items,
                Err(_) => {
                    return None;
                },
            };
            match files_from_items(arr) {
                Some(out) => out,
                None => {
                    return None;
                },
            }
        },
        None => Vec::new(),
    };
    Some(SlackPost { extra: obj, upload, file, files })
}

/// Reads a whole attachment array, element for element.
#[verifier::loop_isolation(false)]
fn files_from_items(items: Vec<serde_json::Value>) -> (r: Option<Vec<File>>)
    ensures
        match r {
            Some(files) => spec_files_from_items(items@) == Some(file_views(files@)),
            None => spec_files_from_items(items@) is None,
        },
{
    let ghost all = items@;
    let mut arr = items;
    let mut out: Vec<File> = Vec::new();
    while arr.len() > 0
        invariant
            out@.len() + arr@.len() == all.len(),
            arr@ == all.skip(out@.len() as int),
            spec_files_from_items(all) == (match spec_files_from_items(arr@) {
                None => None::<Seq<FileModel>>,
                Some(rest) => Some(file_views(out@) + rest),
            }),
        decreases arr.len(),
    {
        let ghost j = out@.len() as int;
        let ghost before = arr@;
        let item = arr.remove(0);
        proof {
            assert(before == all.skip(j));
            assert(before[0] == all.skip(j)[0]);
            assert(arr@ =~= before.drop_first());
            assert(arr@ =~= all.skip(j + 1));
        }
        match file_from_value(item) {
            Some(f) => {
                out.push(f);
                proof {
                    assert(file_views(out@) =~= file_views(out@.drop_last()).push(f@));
                    match spec_files_from_items(arr@) {
                        Some(rest) => {
                            assert(file_views(out@) + rest =~= file_views(out@.drop_last()) + (seq![
                                f@,
                            ] + rest));
                        },
                        None => {},
                    }
                }
            },
            None => {
                proof {
                    assert(spec_files_from_items(before) is None);
                }
                return None;
            },
        }
    }
    proof {
        assert(arr@ =~= Seq::<serde_json::Value>::empty());
        assert(file_views(out@) + Seq::<FileModel>::empty() =~= file_views(out@));
    }
    Some(out)
}

/// Renders one post back into a JSON object, as `spec_post_value` says.
/// An absent legacy field stays absent: spec-wise the single-file field
/// is "empty/absent" after rewriting, and absent round-trips the same.
pub fn post_to_value(p: SlackPost) -> (r: serde_json::Value)
    ensures
        r == spec_post_value(p@),
{
    let SlackPost { extra, upload, file, files } = p;
    let mut obj = extra;
    let _old = object_insert(&mut obj, "upload", value_of_bool(upload));
    match file {
        Some(f) => {
            let _old = object_insert(&mut obj, "file", file_to_value(f));
        },
        None => {},
    }
    let ghost all = file_views(files@);
    let mut items: Vec<serde_json::Value> = Vec::new();
    let mut files = files;
    while files.len() > 0
        invariant
            items@.len() + files@.len() == all.len(),
            file_views(files@) == all.skip(items@.len() as int),
            items@ == spec_file_items(all.take(items@.len() as int)),
        decreases files.len(),
    {
        let ghost j = items@.len() as int;
        let ghost before = files@;
        let f = files.remove(0);
        proof {
            assert(file_views(before) == all.skip(j));
            assert(file_views(before)[0] == before[0]@);
            assert(all.skip(j)[0] == all[j]);
            assert(f@ == all[j]);
            assert(file_views(files@) =~= file_views(before).drop_first());
            assert(file_views(files@) =~= all.skip(j + 1));
        }
        items.push(file_to_value(f));
        proof {
            assert(spec_file_items(all.take(j + 1)) =~= spec_file_items(all.take(j)).push(
                spec_file_value(all[j]),
            ));
        }
    }
    proof {
        assert(all.take(all.len() as int) =~= all);
    }
    let _old = object_insert(&mut obj, "files", value_of_array(items));
    value_of_object(obj)
}

/// Parses a whole entry as an array of posts, as `spec_parse_posts`
/// says: `None` when the bytes are not valid JSON, not an array, or any
/// element fails to read as a post — such an entry passes through the
/// rewrite unmodified.
#[verifier::loop_isolation(false)]
pub fn parse_posts(bytes: &[u8]) -> (r: Option<Vec<SlackPost>>)
    ensures
        match r {
            Some(posts) => spec_parse_posts(bytes@) == Some(post_views(posts@)),
            None => spec_parse_posts(bytes@) is None,
        },
{
    let v = match value_from_slice(bytes) {
        Some(v) => v,
        None => {
            return None;
        },
    };
    let arr = match value_into_array(v) {
        Ok(items) => items,
        Err(_) => {
            return None;
        },
    };
    let ghost all = arr@;
    let mut arr = arr;
    let mut posts: Vec<SlackPost> = Vec::new();
    while arr.len() > 0
        invariant
            posts@.len() + arr@.len() == all.len(),
            arr@ == all.skip(posts@.len() as int),
            spec_posts_from_items(all) == (match spec_posts_from_items(arr@) {
                None => None::<Seq<PostModel>>,
                Some(rest) => Some(post_views(posts@) + rest),
            }),
        decreases arr.len(),
    {
        let ghost j = posts@.len() as int;
        let ghost before = arr@;
        let item = arr.remove(0);
        proof {
            assert(before == all.skip(j));
            assert(before[0] == all.skip(j)[0]);
            assert(arr@ =~= before.drop_first());
            assert(arr@ =~= all.skip(j + 1));
        }
        match post_from_value(item) {
            Some(p) => {
                posts.push(p);
                proof {
                    assert(post_views(posts@) =~= post_views(posts@.drop_last()).push(p@));
                    match spec_posts_from_items(arr@) {
                        Some(rest) => {
                            assert(post_views(posts@) + rest =~= post_views(posts@.drop_last())
                                + (seq![p@] + rest));
                        },
                        None => {},
                    }
                }
            },
            None => {
                proof {
                    assert(spec_posts_from_items(before) is None);
                }
                return None;
            },
        }
    }
    proof {
        assert(arr@ =~= Seq::<serde_json::Value>::empty());
        assert(post_views(posts@) + Seq::<PostModel>::empty() =~= post_views(posts@));
    }
    Some(posts)
}

/// Renders a post array as JSON text, as `spec_render_posts` says; the
/// rendering never fails.
pub fn serialize_posts(posts: Vec<SlackPost>) -> (r: Option<Vec<u8>>)
    ensures
        r is Some,
        r matches Some(bytes) ==> bytes@ == spec_render_posts(post_views(posts@)),
{
    let ghost all = post_views(posts@);
    let mut items: Vec<serde_json::Value> = Vec::new();
    let mut posts = posts;
    while posts.len() > 0
        invariant
            items@.len() + posts@.len() == all.len(),
            post_views(posts@) == all.skip(items@.len() as int),
            items@ == spec_post_items(all.take(items@.len() as int)),
        decreases posts.len(),
    {
        let ghost j = items@.len() as int;
        let ghost before = posts@;
        let p = posts.remove(0);
        proof {
            assert(post_views(before) == all.skip(j));
            assert(post_views(before)[0] == before[0]@);
            assert(all.skip(j)[0] == all[j]);
            assert(p@ == all[j]);
            assert(post_views(posts@) =~= post_views(before).drop_first());
            assert(post_views(posts@) =~= all.skip(j + 1));
        }
        items.push(post_to_value(p));
        proof {
            assert(spec_post_items(all.take(j + 1)) =~= spec_post_items(all.take(j)).push(
                spec_post_value(all[j]),
            ));
        }
    }
    proof {
        assert(all.take(all.len() as int) =~= all);
    }
    let arr = value_of_array(items);
    value_to_bytes(&arr)
}

/// Reads one direct-message record, as `spec_direct_from_value` says.
#[verifier::loop_isolation(false)]
pub fn direct_from_value(v: serde_json::Value) -> (r: Option<Direct>)
    ensures
        match r {
            Some(d) => spec_direct_from_value(v) == Some(d@),
            None => spec_direct_from_value(v) is None,
        },
{
    let mut obj = match value_into_object(v) {
        Ok(fields) => fields,
        Err(_) => {
            return None;
        },
    };
    let id = match object_remove(&mut obj, "id") {
        Some(s) => match value_into_string(s) {
            Some(x) => x,
            None => {
                return None;
            },
        },
        None => {
            return None;
        },
    };
    let members_value = match object_remove(&mut obj, "members") {
        Some(x) => x,
        None => {
            return None;
        },
    };
    let arr = match value_into_array(members_value) {
        Ok(items) => items,
        Err(_) => {
            return None;
        },
    };
    let ghost all = arr@;
    let mut arr = arr;
    let mut members: Vec<String> = Vec::new();
    while arr.len() > 0
        invariant
            members@.len() + arr@.len() == all.len(),
            arr@ == all.skip(members@.len() as int),
            spec_strings_from_items(all) == (match spec_strings_from_items(arr@) {
                None => None::<Seq<Seq<char>>>,
                Some(rest) => Some(string_views(members@) + rest),
            }),
        decreases arr.len(),
    {
        let ghost j = members@.len() as int;
        let ghost before = arr@;
        let item = arr.remove(0);
        proof {
            assert(before == all.skip(j));
            assert(before[0] == all.skip(j)[0]);
            assert(arr@ =~= before.drop_first());
            assert(arr@ =~= all.skip(j + 1));
        }
        match value_into_string(item) {
            Some(s) => {
                members.push(s);
                proof {
                    assert(string_views(members@) =~= string_views(members@.drop_last()).push(s@));
                    match spec_strings_from_items(arr@) {
                        Some(rest) => {
                            assert(string_views(members@) + rest =~= string_views(
                                members@.drop_last(),
                            ) + (seq![s@] + rest));
                        },
                        None => {},
                    }
                }
            },
            None => {
                proof {
                    assert(spec_strings_from_items(before) is None);
                }
                return None;
            },
        }
    }
    proof {
        assert(arr@ =~= Seq::<serde_json::Value>::empty());
        assert(string_views(members@) + Seq::<Seq<char>>::empty() =~= string_views(members@));
    }
    Some(Direct { id, members })
}

/// Renders one direct-message record, as `spec_direct_value` says: a
/// fresh object holding exactly its two fields.
pub fn direct_to_value(d: &Direct) -> (r: serde_json::Value)
    ensures
        r == spec_direct_value(d@),
{
    let mut obj = object_with_capacity(2);
    let _old = object_insert(&mut obj, "id", value_of_string(d.id.clone()));
    let mut items: Vec<serde_json::Value> = Vec::new();
    let mut i: usize = 0;
    while i < d.members.len()
        invariant
            i <= d.members@.len(),
            items@ == spec_member_items(string_views(d.members@).take(i as int)),
        decreases d.members@.len() - i,
    {
        items.push(value_of_string(d.members[i].clone()));
        proof {
            assert(items@ =~= spec_member_items(string_views(d.members@).take(i as int + 1)));
        }
        i += 1;
    }
    proof {
        assert(string_views(d.members@).take(d.members@.len() as int) =~= string_views(
            d.members@,
        ));
    }
    let _old = object_insert(&mut obj, "members", value_of_array(items));
    value_of_object(obj)
}

/// Parses the DM directory entry, as `spec_parse_directs` says.
#[verifier::loop_isolation(false)]
pub fn parse_directs(bytes: &[u8]) -> (r: Option<Vec<Direct>>)
    ensures
        match r {
            Some(directs) => spec_parse_directs(bytes@) == Some(direct_views(directs@)),
            None => spec_parse_directs(bytes@) is None,
        },
{
    let v = match value_from_slice(bytes) {
        Some(v) => v,
        None => {
            return None;
        },
    };
    let arr = match value_into_array(v) {
        Ok(items) => items,
        Err(_) => {
            return None;
        },
    };
    let ghost all = arr@;
    let mut arr = arr;
    let mut directs: Vec<Direct> = Vec::new();
    while arr.len() > 0
        invariant
            directs@.len() + arr@.len() == all.len(),
            arr@ == all.skip(directs@.len() as int),
            spec_directs_from_items(all) == (match spec_directs_from_items(arr@) {
                None => None::<Seq<DirectModel>>,
                Some(rest) => Some(direct_views(directs@) + rest),
            }),
        decreases arr.len(),
    {
        let ghost j = directs@.len() as int;
        let ghost before = arr@;
        let item = arr.remove(0);
        proof {
            assert(before == all.skip(j));
            assert(before[0] == all.skip(j)[0]);
            assert(arr@ =~= before.drop_first());
            assert(arr@ =~= all.skip(j + 1));
        }
        match direct_from_value(item) {
            Some(d) => {
                directs.push(d);
                proof {
                    assert(direct_views(directs@) =~= direct_views(directs@.drop_last()).push(d@));
                    match spec_directs_from_items(arr@) {
                        Some(rest) => {
                            assert(direct_views(directs@) + rest =~= direct_views(
                                directs@.drop_last(),
                            ) + (seq![d@] + rest));
                        },
                        None => {},
                    }
                }
            },
            None => {
                proof {
                    assert(spec_directs_from_items(before) is None);
                }
                return None;
            },
        }
    }
    proof {
        assert(arr@ =~= Seq::<serde_json::Value>::empty());
        assert(direct_views(directs@) + Seq::<DirectModel>::empty() =~= direct_views(directs@));
    }
    Some(directs)
}

/// Renders a list of direct-message records as JSON text, as
/// `spec_render_directs` says; the rendering never fails.
pub fn serialize_directs(directs: &Vec<Direct>) -> (r: Option<Vec<u8>>)
    ensures
        r is Some,
        r matches Some(bytes) ==> bytes@ == spec_render_directs(direct_views(directs@)),
{
    let mut items: Vec<serde_json::Value> = Vec::new();
    let mut i: usize = 0;
    while i < directs.len()
        invariant
            i <= directs@.len(),
            items@ == spec_direct_items(direct_views(directs@).take(i as int)),
        decreases directs@.len() - i,
    {
        items.push(direct_to_value(&directs[i]));
        proof {
            assert(items@ =~= spec_direct_items(direct_views(directs@).take(i as int + 1)));
        }
        i += 1;
    }
    proof {
        assert(direct_views(directs@).take(directs@.len() as int) =~= direct_views(directs@));
    }
    let arr = value_of_array(items);
    value_to_bytes(&arr)
}

} // verus!
