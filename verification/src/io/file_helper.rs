//! Names and places of the files that the modes write.
//!
//! A place is a list of path components below the user's documents folder.

use crate::text::{
    ends_ignoring_case, ends_with_ignore_case, trim, trimmed, views, views_push,
};
use vstd::prelude::*;
use vstd::string::StringExecFns;

verus! {

pub const APP_FOLDER_NAME: &'static str = "DSSD_Analysis";

pub const SOURCE_FOLDER_NAME: &'static str = "Source";

/// The folder for output below the documents folder; `sub_folder` may be
/// empty.
pub open spec fn output_folder(sub_folder: Seq<char>) -> Seq<Seq<char>> {
    if sub_folder.len() == 0 {
        seq![APP_FOLDER_NAME@]
    } else {
        seq![APP_FOLDER_NAME@, sub_folder]
    }
}

/// The folder for output below the documents folder; `sub_folder` may be
/// empty.
pub fn get_output_folder(sub_folder: &str) -> (r: Vec<String>)
    ensures
        views(r@) == output_folder(sub_folder@),
{
    let mut parts: Vec<String> = Vec::new();
    parts.push(String::from_str(APP_FOLDER_NAME));
    if sub_folder.unicode_len() > 0 {
        parts.push(String::from_str(sub_folder));
    }
    assert(views(parts@) =~= output_folder(sub_folder@));
    parts
}

/// The contents of several files, one after the other.
pub open spec fn combined(contents: Seq<Vec<u8>>) -> Seq<u8>
    decreases contents.len(),
{
    if contents.len() == 0 {
        Seq::empty()
    } else {
        combined(contents.drop_last()) + contents.last()@
    }
}

/// Puts the contents of several files one after the other.
pub fn combine_files(contents: &[Vec<u8>]) -> (r: Result<Vec<u8>, String>)
    ensures
        match r {
            Ok(bytes) => contents@.len() > 0 && bytes@ == combined(contents@),
            Err(e) => contents@.len() == 0 && e@ == "No files selected for combination."@,
        },
{
    if contents.len() == 0 {
        return Err(String::from_str("No files selected for combination."));
    }
    let mut bytes: Vec<u8> = Vec::new();
    assert(contents@.take(0) =~= Seq::<Vec<u8>>::empty());
    for i in 0..contents.len()
        invariant
            bytes@ == combined(contents@.take(i as int)),
    {
        bytes.extend_from_slice(contents[i].as_slice());
        assert(contents@.take(i + 1).drop_last() =~= contents@.take(i as int));
    }
    assert(contents@.take(contents@.len() as int) =~= contents@);
    Ok(bytes)
}

/// The name with the ending of a workbook, unless it has it.
pub open spec fn workbook_name(name: Seq<char>) -> Seq<char> {
    if ends_ignoring_case(name, ".xlsx"@) {
        name
    } else {
        name + ".xlsx"@
    }
}

/// The name with the ending of a workbook, unless it has it in either case.
pub fn with_workbook_ending(name: &str) -> (r: String)
    ensures
        r@ == workbook_name(name@),
{
    let mut out = String::from_str(name);
    if !ends_with_ignore_case(name, ".xlsx") {
        out.append(".xlsx");
    }
    out
}

/// Where a workbook is saved: under its name, in the given folder or the one
/// for sources.
pub open spec fn save_place(name: Seq<char>, sub_folder: Seq<char>) -> Seq<Seq<char>> {
    output_folder(
        if trimmed(sub_folder).len() == 0 {
            SOURCE_FOLDER_NAME@
        } else {
            sub_folder
        },
    ).push(workbook_name(name))
}

/// Where a workbook is saved that was given by a bare name.
pub fn resolve_excel_save_path(name: &str, sub_folder: &str) -> (r: Result<Vec<String>, String>)
    ensures
        match r {
            Ok(parts) => trimmed(name@).len() > 0 && views(parts@) == save_place(name@, sub_folder@),
            Err(e) => trimmed(name@).len() == 0 && e@
                == "Invalid file name. Please use a valid name."@,
        },
{
    if trim(name).len() == 0 {
        return Err(String::from_str("Invalid file name. Please use a valid name."));
    }
    let folder = if trim(sub_folder).len() == 0 { SOURCE_FOLDER_NAME } else { sub_folder };
    let mut parts = get_output_folder(folder);
    let file = with_workbook_ending(name);
    proof {
        views_push(parts@, file);
    }
    parts.push(file);
    Ok(parts)
}

/// What a list of places says.
pub open spec fn places(paths: Seq<Vec<String>>) -> Seq<Seq<Seq<char>>> {
    paths.map_values(|p: Vec<String>| views(p@))
}

/// The places where the workbook of an output name may be, in order.
pub open spec fn possible_places(output_name: Seq<char>) -> Seq<Seq<Seq<char>>> {
    seq![
        seq![APP_FOLDER_NAME@, output_name, output_name + "_ParticleData.xlsx"@],
        seq![APP_FOLDER_NAME@, SOURCE_FOLDER_NAME@, output_name + ".xlsx"@],
        seq![APP_FOLDER_NAME@, output_name + ".xlsx"@],
    ]
}

fn suffixed(name: &str, ending: &str) -> (r: String)
    ensures
        r@ == name@ + ending@,
{
    let mut out = String::from_str(name);
    out.append(ending);
    out
}

/// The places where the workbook of an output name may be, in order.
pub fn get_possible_file_paths(output_name: &str) -> (r: Vec<Vec<String>>)
    ensures
        places(r@) == possible_places(output_name@),
        r@.len() == 3,
{
    let first = vec![
        String::from_str(APP_FOLDER_NAME),
        String::from_str(output_name),
        suffixed(output_name, "_ParticleData.xlsx"),
    ];
    let second = vec![
        String::from_str(APP_FOLDER_NAME),
        String::from_str(SOURCE_FOLDER_NAME),
        suffixed(output_name, ".xlsx"),
    ];
    let third = vec![String::from_str(APP_FOLDER_NAME), suffixed(output_name, ".xlsx")];
    proof {
        assert(views(first@) =~= possible_places(output_name@)[0]);
        assert(views(second@) =~= possible_places(output_name@)[1]);
        assert(views(third@) =~= possible_places(output_name@)[2]);
    }
    let paths = vec![first, second, third];
    assert(places(paths@) =~= possible_places(output_name@));
    paths
}

/// The first of the possible places at which there is a file.
pub open spec fn first_present(places: Seq<Seq<Seq<char>>>, present: Seq<bool>) -> Option<
    Seq<Seq<char>>,
>
    decreases present.len(),
{
    if present.len() == 0 || places.len() == 0 {
        None
    } else if present[0] {
        Some(places[0])
    } else {
        first_present(places.drop_first(), present.drop_first())
    }
}

/// The first of the possible places of a workbook at which there is a file;
/// `present` tells of each place whether there is one.
pub fn find_excel_file(output_name: &str, present: [bool; 3]) -> (r: Option<Vec<String>>)
    ensures
        match r {
            Some(path) => first_present(possible_places(output_name@), present@) == Some(
                views(path@),
            ),
            None => first_present(possible_places(output_name@), present@) is None,
        },
{
    let ghost all = possible_places(output_name@);
    let mut paths = get_possible_file_paths(output_name);
    proof {
        reveal_with_fuel(first_present, 4);
        assert(places(paths@)[0] == views(paths@[0]@));
        assert(places(paths@)[1] == views(paths@[1]@));
        assert(places(paths@)[2] == views(paths@[2]@));
        assert(all.drop_first()[0] == all[1]);
        assert(all.drop_first().drop_first()[0] == all[2]);
        assert(present@.drop_first()[0] == present@[1]);
        assert(present@.drop_first().drop_first()[0] == present@[2]);
    }
    if present[0] {
        Some(paths.swap_remove(0))
    } else if present[1] {
        Some(paths.swap_remove(1))
    } else if present[2] {
        Some(paths.swap_remove(2))
    } else {
        None
    }
}

} // verus!
