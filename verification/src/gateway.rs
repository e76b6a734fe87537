//! Routing of student records to the gRPC service of their discipline.

use vstd::prelude::*;

verus! {

/// Address of the gRPC service that handles swimming (discipline 1) and every unknown discipline.
pub open spec fn swimming_server() -> Seq<char> {
    "service-50051.grpc-app.svc.cluster.local:50051"@
}

/// The address that a discipline number is routed to.
pub open spec fn server_for_discipline(discipline: i32) -> Seq<char> {
    if discipline == 2 {
        "service-50052.grpc-app.svc.cluster.local:50052"@
    } else if discipline == 3 {
        "service-50053.grpc-app.svc.cluster.local:50053"@
    } else {
        swimming_server()
    }
}

/// Maps a discipline (1 swimming, 2 athletics, 3 boxing) to the address of its service;
/// any other number goes to the swimming service.
pub fn get_server_for_discipline(discipline: i32) -> (server: &'static str)
    ensures
        server@ == server_for_discipline(discipline),
{
    match discipline {
        1 => "service-50051.grpc-app.svc.cluster.local:50051",
        2 => "service-50052.grpc-app.svc.cluster.local:50052",
        3 => "service-50053.grpc-app.svc.cluster.local:50053",
        _ => "service-50051.grpc-app.svc.cluster.local:50051",
    }
}

/// The answer to a student submission: the first reply that came back from the discipline's
/// service, or `No se han recibido respuestas` when none came.
pub open spec fn reply_text(first_reply: Option<Seq<char>>) -> Seq<char> {
    match first_reply {
        Some(r) => r,
        None => "No se han recibido respuestas"@,
    }
}

/// Chooses the text that answers a student submission.
pub fn student_reply(first_reply: Option<String>) -> (reply: String)
    ensures
        reply@ == reply_text(
            match first_reply {
                Some(r) => Some(r@),
                None => None,
            },
        ),
{
    match first_reply {
        Some(r) => r,
        None => "No se han recibido respuestas".to_string(),
    }
}

/// Disciplines 1, 2 and 3 each have their own service, on port 50051, 50052 and 50053 of the
/// host named after that port; every other number goes to the service of discipline 1.
pub proof fn lemma_discipline_routes(discipline: i32)
    ensures
        1 <= discipline <= 3 ==> server_for_discipline(discipline) == "service-5005"@ + seq![
            (('0' as int) + discipline) as char,
        ] + ".grpc-app.svc.cluster.local:5005"@ + seq![(('0' as int) + discipline) as char],
        !(1 <= discipline <= 3) ==> server_for_discipline(discipline) == server_for_discipline(1),
{
    reveal_strlit("service-5005");
    reveal_strlit(".grpc-app.svc.cluster.local:5005");
    reveal_strlit("service-50051.grpc-app.svc.cluster.local:50051");
    reveal_strlit("service-50052.grpc-app.svc.cluster.local:50052");
    reveal_strlit("service-50053.grpc-app.svc.cluster.local:50053");
    if 1 <= discipline <= 3 {
        assert(server_for_discipline(discipline) =~= "service-5005"@ + seq![(('0' as int) + discipline) as char]
            + ".grpc-app.svc.cluster.local:5005"@ + seq![(('0' as int) + discipline) as char]);
    }
}

/// A reply that came back is answered unchanged, whatever it says; only when none came is
/// the fixed text sent.
pub proof fn lemma_reply_passes_first_reply_through(reply: Seq<char>)
    ensures
        reply_text(Some(reply)) == reply,
        reply_text(None) == "No se han recibido respuestas"@,
{
}

} // verus!
