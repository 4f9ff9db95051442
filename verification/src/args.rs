//! The arguments of the client program.
use vstd::prelude::*;
use vstd::string::*;

verus! {

/// What the client program was asked to do: where the server is, the command to run there, and the
/// command's arguments.
pub type Request<A> = (A, String, Vec<String>);

/// A request as a mathematical value, or what is wrong with the arguments.
pub open spec fn request_view<A>(result: Result<Request<A>, String>) -> Result<
    (A, Seq<char>, Seq<Seq<char>>),
    Seq<char>,
> {
    match result {
        Ok((address, command, args)) => Ok((address, command@, args.deep_view())),
        Err(e) => Err(e@),
    }
}

/// What is said where no server is named.
pub open spec fn no_server() -> Seq<char> {
    "Expected a leading argument representing a nailgun server hostname and port."@
}

/// What the arguments of the client program ask for, given what the second of them is as an address.
/// The first is the name of the program itself.
pub open spec fn request_of<A>(args: Seq<Seq<char>>, address: Result<A, Seq<char>>) -> Result<
    (A, Seq<char>, Seq<Seq<char>>),
    Seq<char>,
> {
    if args.len() < 2 {
        Err(no_server())
    } else {
        match address {
            Err(e) => Err("Failed to parse "@ + args[1] + ": "@ + e),
            Ok(address) => if args.len() < 3 {
                Err("Needed at least one trailing argument for the command to run."@)
            } else {
                Ok((address, args[2], args.skip(3)))
            },
        }
    }
}

/// What the arguments of the client program ask for, given what the second of them is as an address.
pub fn request<A>(args: &Vec<String>, address: Result<A, String>) -> (result: Result<
    Request<A>,
    String,
>)
    ensures
        request_view(result) == request_of(
            args.deep_view(),
            match address {
                Ok(a) => Ok(a),
                Err(e) => Err(e@),
            },
        ),
        result is Ok <==> args@.len() >= 3 && address is Ok,
        result matches Ok((a, command, command_args)) ==> {
            &&& address == Ok::<A, String>(a)
            &&& command@ == args@[2]@
            &&& command_args@.len() == args@.len() - 3
            &&& forall|i: int|
                0 <= i < command_args@.len() ==> #[trigger] command_args@[i]@ == args@[i + 3]@
        },
{
    if args.len() < 2 {
        return Err(
            "Expected a leading argument representing a nailgun server hostname and port.".to_owned(),
        );
    }
    let address = match address {
        Ok(address) => address,
        Err(e) => {
            let mut message = "Failed to parse ".to_owned();
            message.append(args[1].as_str());
            message.append(": ");
            message.append(e.as_str());
            return Err(message);
        },
    };
    if args.len() < 3 {
        return Err("Needed at least one trailing argument for the command to run.".to_owned());
    }
    let mut command_args: Vec<String> = Vec::new();
    for i in 3..args.len()
        invariant
            3 <= args@.len(),
            command_args@.len() == i - 3,
            forall|j: int| 0 <= j < i - 3 ==> #[trigger] command_args@[j]@ == args@[j + 3]@,
    {
        command_args.push(args[i].clone());
    }
    assert(command_args.deep_view() =~= args.deep_view().skip(3));
    Ok((address, args[2].clone(), command_args))
}

/// Splits the arguments of the client program into the address of a server and what to send there.
/// What an address is, `parse` decides.
pub fn parse_args<A, F: Fn(&str) -> Result<A, String>>(args: Vec<String>, parse: F) -> (result:
    Result<Request<A>, String>)
    requires
        forall|s: &str| call_requires(parse, (s,)),
    ensures
        args@.len() < 2 ==> request_view(result) == Err::<
            (A, Seq<char>, Seq<Seq<char>>),
            Seq<char>,
        >(no_server()),
        args@.len() >= 2 ==> exists|s: &str, address: Result<A, String>|
            {
                &&& #[trigger] call_ensures(parse, (s,), address)
                &&& s@ == args@[1]@
                &&& request_view(result) == request_of(
                    args.deep_view(),
                    match address {
                        Ok(a) => Ok(a),
                        Err(e) => Err(e@),
                    },
                )
            },
{
    if args.len() < 2 {
        return Err(
            "Expected a leading argument representing a nailgun server hostname and port.".to_owned(),
        );
    }
    let address = parse(args[1].as_str());
    request(&args, address)
}

/// The command of a request and its arguments are all that follows the address, in order: nothing is
/// left out, and nothing is added.
pub proof fn law_request_is_all_that_follows<A>(args: Seq<Seq<char>>, address: A)
    requires
        args.len() >= 3,
    ensures
        request_of(args, Ok(address)) matches Ok((a, command, command_args)) && {
            &&& a == address
            &&& seq![command] + command_args == args.skip(2)
            &&& command_args.len() == args.len() - 3
            &&& forall|i: int|
                0 <= i < command_args.len() ==> #[trigger] command_args[i] == args[i + 3]
        },
{
    let command_args = args.skip(3);
    assert(seq![args[2]] + command_args =~= args.skip(2));
}

/// Arguments added at the end are handed to the command, after those that it had.
pub proof fn law_more_arguments<A>(args: Seq<Seq<char>>, address: A, more: Seq<char>)
    requires
        args.len() >= 3,
    ensures
        request_of(args, Ok(address)) matches Ok((a, command, command_args)) && request_of(
            args.push(more),
            Ok(address),
        ) == Ok::<(A, Seq<char>, Seq<Seq<char>>), Seq<char>>((a, command, command_args.push(more))),
{
    assert(args.push(more).skip(3) =~= args.skip(3).push(more));
}

/// What is missing or wrong is told, and in this order: the server, its address, the command.
pub proof fn law_requests_refused<A>(args: Seq<Seq<char>>, address: Result<A, Seq<char>>)
    ensures
        request_of(args, address) is Ok <==> args.len() >= 3 && address is Ok,
        args.len() < 2 ==> request_of(args, address) == Err::<
            (A, Seq<char>, Seq<Seq<char>>),
            Seq<char>,
        >("Expected a leading argument representing a nailgun server hostname and port."@),
        args.len() >= 2 && address is Err ==> request_of(args, address) == Err::<
            (A, Seq<char>, Seq<Seq<char>>),
            Seq<char>,
        >("Failed to parse "@ + args[1] + ": "@ + address->Err_0),
        args.len() == 2 && address is Ok ==> request_of(args, address) == Err::<
            (A, Seq<char>, Seq<Seq<char>>),
            Seq<char>,
        >("Needed at least one trailing argument for the command to run."@),
        no_server()
            == "Expected a leading argument representing a nailgun server hostname and port."@,
{
}

/// A request is known by its address, its command and every argument.
pub proof fn law_request_is_seen_whole<A>(
    address: A,
    command: String,
    args: Vec<String>,
    e: String,
    i: int,
)
    ensures
        request_view(Ok::<Request<A>, String>((address, command, args))) matches Ok((a, c, v)) && {
            &&& a == address
            &&& c == command@
            &&& v.len() == args@.len()
            &&& 0 <= i < v.len() ==> v[i] == args@[i]@
        },
        request_view(Err::<Request<A>, String>(e)) == Err::<
            (A, Seq<char>, Seq<Seq<char>>),
            Seq<char>,
        >(e@),
{
}

} // verus!
