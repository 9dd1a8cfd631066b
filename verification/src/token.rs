use vstd::prelude::*;

verus! {

/// The command line of the bot: an optional file that holds the token, and
/// an optional token given directly. `P` is the type of a file path.
pub struct Args<P> {
    pub token_path: Option<P>,
    pub token: Option<String>,
}

/// The file that is read for the token when the command line names none.
pub const DEFAULT_TOKEN_PATH: &'static str = "./token";

/// Where the bot's token comes from.
pub enum TokenSource<P> {
    /// The token given on the command line.
    Argument(String),
    /// The contents of the file named on the command line.
    File(P),
    /// The contents of the file at `DEFAULT_TOKEN_PATH`.
    DefaultFile,
}

/// Picks the token's source: the token argument first, then the token file
/// argument, then the default file.
pub fn token_source<P>(args: Args<P>) -> (r: TokenSource<P>)
    ensures
        match args.token {
            Some(t) => r == TokenSource::<P>::Argument(t),
            None => match args.token_path {
                Some(p) => r == TokenSource::File(p),
                None => r == TokenSource::<P>::DefaultFile,
            },
        },
{
    match args.token {
        Some(t) => TokenSource::Argument(t),
        None => match args.token_path {
            Some(p) => TokenSource::File(p),
            None => TokenSource::DefaultFile,
        },
    }
}

} // verus!
