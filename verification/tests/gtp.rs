use gorrosion::gtp::Alternatives;
use gorrosion::gtp::Boolean;
use gorrosion::gtp::Color;
use gorrosion::gtp::Int;
use gorrosion::gtp::Line;
use gorrosion::gtp::List;
use gorrosion::gtp::MessagePart;
use gorrosion::gtp::Move;
use gorrosion::gtp::MultilineList;
use gorrosion::gtp::Type;
use gorrosion::gtp::Vertex;

#[test]
fn messages_are_made_of_plain_values() {
    let mov = Move {
        color: Color::White,
        vertex: Vertex::Coord('q', 16),
    };
    assert!(matches!(mov.color, Color::White));
    assert!(matches!(mov.vertex, Vertex::Coord('q', 16)));
    let list = List {
        data: vec![Int { data: 3 }, Int { data: 5 }],
    };
    assert_eq!(list.data.len(), 2);
    assert_eq!(list.data[1].data, 5);
    let either: Alternatives<Int, Boolean> = Alternatives::Right(Boolean::True);
    assert!(matches!(either, Alternatives::Right(Boolean::True)));
    let lines = MultilineList {
        data: vec![Line {
            data: vec![61, 32, 49],
        }],
    };
    assert_eq!(lines.data[0].data, vec![61, 32, 49]);
    let part = MessagePart { data: vec![10] };
    assert_eq!(part.data, vec![10]);
    assert!(matches!(Type::Float, Type::Float));
    assert!(matches!(Vertex::Pass, Vertex::Pass));
}
