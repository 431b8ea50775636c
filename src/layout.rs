//! Where the application keeps its files, below the folders that the
//! operating system names for the user.
use vstd::prelude::*;
use crate::path::{
    valid_sep, joined, join, is_single_name, lemma_joined_components, components, contains,
    strictly_contains,
};

verus! {

/// The folder of the application under the user's documents and under the
/// temporary area.
pub const APP_DIR: &'static str = "PBS_Admin";

/// The folder of the live data, under the application folder.
pub const DATA_DIR: &'static str = "data";

/// The folder of the backups, under the application folder.
pub const BACKUPS_DIR: &'static str = "Backups";

/// The folder of the client records, under the application folder.
pub const CLIENT_RECORDS_DIR: &'static str = "Client_Records";

/// The folder of the document templates, under the application folder.
pub const TEMPLATES_DIR: &'static str = "Templates";

/// The name of the database file, in the data folder.
pub const DATABASE_FILE: &'static str = "pbs_admin.db";

/// `<documents>/PBS_Admin/data`.
pub open spec fn data_root(documents: Seq<char>, sep: char) -> Seq<char> {
    joined(joined(documents, APP_DIR@, sep), DATA_DIR@, sep)
}

/// `<documents>/PBS_Admin/Backups`.
pub open spec fn backups_root(documents: Seq<char>, sep: char) -> Seq<char> {
    joined(joined(documents, APP_DIR@, sep), BACKUPS_DIR@, sep)
}

/// `<temp>/PBS_Admin`.
pub open spec fn scratch_root(temp: Seq<char>, sep: char) -> Seq<char> {
    joined(temp, APP_DIR@, sep)
}

/// `<documents>/PBS_Admin/data/pbs_admin.db`.
pub open spec fn database_path(documents: Seq<char>, sep: char) -> Seq<char> {
    joined(data_root(documents, sep), DATABASE_FILE@, sep)
}

/// The data folder under the user's documents folder.
pub fn data_root_of(documents: &str, sep: char) -> (r: String)
    requires
        valid_sep(sep),
    ensures
        r@ == data_root(documents@, sep),
{
    let app = join(documents, APP_DIR, sep);
    join(app.as_str(), DATA_DIR, sep)
}

/// The backups folder under the user's documents folder.
pub fn backups_root_of(documents: &str, sep: char) -> (r: String)
    requires
        valid_sep(sep),
    ensures
        r@ == backups_root(documents@, sep),
{
    let app = join(documents, APP_DIR, sep);
    join(app.as_str(), BACKUPS_DIR, sep)
}

/// The scratch folder under the temporary area.
pub fn scratch_root_of(temp: &str, sep: char) -> (r: String)
    requires
        valid_sep(sep),
    ensures
        r@ == scratch_root(temp@, sep),
{
    join(temp, APP_DIR, sep)
}

/// The database file under the user's documents folder.
pub fn database_path_of(documents: &str, sep: char) -> (r: String)
    requires
        valid_sep(sep),
    ensures
        r@ == database_path(documents@, sep),
{
    let data = data_root_of(documents, sep);
    join(data.as_str(), DATABASE_FILE, sep)
}

/// `<documents>/PBS_Admin/Client_Records`.
pub open spec fn client_records_root(documents: Seq<char>, sep: char) -> Seq<char> {
    joined(joined(documents, APP_DIR@, sep), CLIENT_RECORDS_DIR@, sep)
}

/// `<documents>/PBS_Admin/Templates`.
pub open spec fn templates_root(documents: Seq<char>, sep: char) -> Seq<char> {
    joined(joined(documents, APP_DIR@, sep), TEMPLATES_DIR@, sep)
}

/// The folder of the client records under the user's documents folder.
pub fn client_records_root_of(documents: &str, sep: char) -> (r: String)
    requires
        valid_sep(sep),
    ensures
        r@ == client_records_root(documents@, sep),
{
    let app = join(documents, APP_DIR, sep);
    join(app.as_str(), CLIENT_RECORDS_DIR, sep)
}

/// The folder of the templates under the user's documents folder.
pub fn templates_root_of(documents: &str, sep: char) -> (r: String)
    requires
        valid_sep(sep),
    ensures
        r@ == templates_root(documents@, sep),
{
    let app = join(documents, APP_DIR, sep);
    join(app.as_str(), TEMPLATES_DIR, sep)
}

proof fn lemma_folder_names(sep: char)
    requires
        valid_sep(sep),
    ensures
        is_single_name(APP_DIR@, sep),
        is_single_name(DATA_DIR@, sep),
        is_single_name(BACKUPS_DIR@, sep),
        is_single_name(DATABASE_FILE@, sep),
        DATA_DIR@ != BACKUPS_DIR@,
{
    reveal_strlit("PBS_Admin");
    reveal_strlit("data");
    reveal_strlit("Backups");
    reveal_strlit("pbs_admin.db");
    assert(DATA_DIR@[0] != BACKUPS_DIR@[0]);
}

/// The database file lies strictly inside the data folder, so that the
/// gatekeeper, whose roots include that folder, accepts it.
pub proof fn lemma_database_inside_data_root(documents: Seq<char>, sep: char)
    requires
        valid_sep(sep),
    ensures
        strictly_contains(data_root(documents, sep), database_path(documents, sep), sep),
{
    lemma_folder_names(sep);
    let app = joined(documents, APP_DIR@, sep);
    lemma_joined_components(app, DATA_DIR@, sep);
    lemma_joined_components(data_root(documents, sep), DATABASE_FILE@, sep);
}

/// The backups folder lies outside the data folder: backups are not written
/// where the data is.
pub proof fn lemma_backups_outside_data_root(documents: Seq<char>, sep: char)
    requires
        valid_sep(sep),
    ensures
        !contains(data_root(documents, sep), backups_root(documents, sep), sep),
{
    lemma_folder_names(sep);
    let app = joined(documents, APP_DIR@, sep);
    lemma_joined_components(app, DATA_DIR@, sep);
    lemma_joined_components(app, BACKUPS_DIR@, sep);
    let n = components(app, sep).len() as int;
    assert(components(data_root(documents, sep), sep)[n] == DATA_DIR@);
    assert(components(backups_root(documents, sep), sep)[n] == BACKUPS_DIR@);
}

} // verus!
