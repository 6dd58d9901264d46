use zklogin_auth::keys::{Ed25519PublicKey, Ed25519Signature};
use zklogin_auth::primitives::{Address, Identifier, ObjectDigest, ObjectId, ObjectReference, TypeTag};
use zklogin_auth::simple::SimpleSignature;
use zklogin_auth::transaction::{
    Argument, Command, GasPayment, InputArgument, MakeMoveVector, MoveCall,
    ProgrammableTransaction, SignedTransaction, SplitCoins, Transaction, TransactionExpiration,
    TransactionKind, TransferObjects,
};
use zklogin_auth::user_signature::UserSignature;

fn transaction() -> Transaction {
    let coin = ObjectReference {
        object_id: ObjectId { bytes: [1; 32] },
        version: 7,
        digest: ObjectDigest { bytes: [2; 32] },
    };
    let commands = vec![
        Command::SplitCoins(SplitCoins { coin: Argument::GasCoin, amounts: vec![Argument::Input(0)] }),
        Command::TransferObjects(TransferObjects {
            objects: vec![Argument::NestedResult(0, 0)],
            recipient: Argument::Input(1),
        }),
        Command::MakeMoveVector(MakeMoveVector {
            type_: Some(TypeTag { canonical: "u64".to_owned() }),
            entries: vec![Argument::Result(0)],
        }),
        Command::MoveCall(MoveCall {
            package: ObjectId { bytes: [3; 32] },
            module: Identifier { name: "coin".to_owned() },
            function: Identifier { name: "value".to_owned() },
            type_arguments: vec![TypeTag { canonical: "0x2::sui::SUI".to_owned() }],
            arguments: vec![Argument::Input(2)],
        }),
    ];
    Transaction {
        kind: TransactionKind::ProgrammableTransaction(ProgrammableTransaction {
            inputs: vec![
                InputArgument::Pure { value: vec![100, 0, 0, 0, 0, 0, 0, 0] },
                InputArgument::Pure { value: vec![9; 32] },
                InputArgument::ImmutableOrOwned(coin),
            ],
            commands,
        }),
        sender: Address { bytes: [4; 32] },
        gas_payment: GasPayment { objects: vec![coin], owner: Address { bytes: [4; 32] }, price: 1000, budget: 5_000_000 },
        expiration: TransactionExpiration::Epoch(12),
    }
}

#[test]
fn transactions_are_values() {
    let t = transaction();
    assert_eq!(t.clone(), t);
    let mut other = t.clone();
    other.expiration = TransactionExpiration::Never;
    assert_ne!(other, t);
    assert_eq!(t.gas_payment.budget, 5_000_000);
}

#[test]
fn signed_transaction_carries_envelopes() {
    let signature = UserSignature::Simple(SimpleSignature::Ed25519 {
        signature: Ed25519Signature::new([1; 64]),
        public_key: Ed25519PublicKey::new([2; 32]),
    });
    let signed = SignedTransaction { transaction: transaction(), signatures: vec![signature.clone()] };
    assert_eq!(signed.signatures.len(), 1);
    let bytes = signed.signatures[0].encode_compact().unwrap();
    assert_eq!(UserSignature::decode_compact(&bytes).unwrap(), signature);
    assert_eq!(signed.clone(), signed);
}
